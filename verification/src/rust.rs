//! Rust segmenter.
//!
//! Functions are reduced to their signature followed by a semicolon, impl
//! blocks keep re-indented method signatures, modules become `mod name;`,
//! and struct items run through a line-oriented reducer that keeps
//! attributes, the struct header and field lines while stubbing method-like
//! lines.  Unrecognized named nodes are kept verbatim.

use vstd::prelude::*;
use crate::syntax::SynNode;
use crate::syntax::kind_is;
use crate::syntax::field_text;
use crate::syntax::field_text_of;
use crate::syntax::field_child;
use crate::syntax::idx_of_field;
use crate::syntax::node_kind_is;
use crate::text::all_ws;
use crate::text::trim_end_spec;
use crate::text::trim_spec;
use crate::text::trim;
use crate::text::indent4_spec;
use crate::text::indent4;
use crate::text::is_blank;
use crate::text::trim_end;
use crate::text::push_chars;
use crate::text::push_str;
use crate::text::clone_chars;
use crate::text::chars_to_string;
use crate::text::split_lines_spec;
use crate::text::split_lines;
use crate::text::sum_lens_from;
use crate::text::lemma_split_lines_bounds;
use crate::text::lemma_count_char_le;
use crate::text::count_char;
use crate::text::count_char_in;
use crate::text::contains_char;
use crate::text::contains_str;
use crate::text::has_substr;
use crate::text::prefix_to_char;
use crate::text::take_to_char;
use crate::text::starts_with_char;
use crate::parse::parse_rust;
use crate::parse::rs_tree_of;

verus! {

/// A function item's simplified form: everything before the first opening
/// brace, trimmed, followed by a semicolon; the body is discarded.
pub open spec fn rs_function_spec(n: SynNode) -> Seq<char> {
    trim_spec(prefix_to_char(n.text@, '{')) + ";\n"@
}

pub open spec fn rs_mod_spec(n: SynNode) -> Seq<char> {
    let name = match field_text(n, "name"@) {
        Some(t) => t,
        None => "unnamed_mod"@,
    };
    "mod "@ + name + ";\n"@
}

/// Lines the struct reducer always keeps: attribute lines and lines that
/// mention `struct`.
pub open spec fn rs_keep_line(line: Seq<char>) -> bool {
    starts_with_char(trim_spec(line), '#') || has_substr(line, "struct"@)
}

/// The struct reducer's walk over the struct text's lines, carrying
/// whether it stands inside the struct body and a brace balance.
pub open spec fn rs_struct_lines(ls: Seq<Seq<char>>, i: int, in_body: bool, brace: int) -> Seq<
    char,
>
    decreases ls.len() - i,
{
    if !(0 <= i < ls.len()) {
        Seq::empty()
    } else {
        let line = ls[i];
        if rs_keep_line(line) {
            let opens = count_char(line, '{') > 0;
            line + "\n"@ + rs_struct_lines(
                ls,
                i + 1,
                in_body || opens,
                if opens {
                    brace + 1
                } else {
                    brace
                },
            )
        } else if in_body {
            let b2 = brace + count_char(line, '{') - count_char(line, '}');
            let is_fn = has_substr(line, "fn "@);
            let piece = if is_fn {
                "    "@ + trim_spec(prefix_to_char(line, '{')) + " { ... }\n"@
            } else if !starts_with_char(trim_spec(line), '}') {
                line + "\n"@
            } else {
                Seq::empty()
            };
            let b3 = if is_fn && b2 > 1 {
                1
            } else {
                b2
            };
            (if b3 == 0 {
                piece + "}\n"@ + rs_struct_lines(ls, i + 1, false, b3)
            } else {
                piece + rs_struct_lines(ls, i + 1, true, b3)
            })
        } else {
            rs_struct_lines(ls, i + 1, false, brace)
        }
    }
}

pub open spec fn rs_struct_spec(n: SynNode) -> Seq<char> {
    rs_struct_lines(split_lines_spec(n.text@), 0, false, 0)
}

/// One impl-body member's contribution: method signatures re-indented,
/// other named members kept verbatim and re-indented.
pub open spec fn rs_impl_member_piece(cs: Seq<SynNode>, i: int) -> Seq<char> {
    if !(0 <= i < cs.len()) {
        Seq::empty()
    } else if !cs[i].named {
        Seq::empty()
    } else if kind_is(cs[i], "function_item"@) {
        indent4_spec(rs_function_spec(cs[i]))
    } else {
        indent4_spec(cs[i].text@)
    }
}

pub open spec fn rs_impl_members_spec(cs: Seq<SynNode>, i: int) -> Seq<char>
    decreases cs.len() - i,
{
    if !(0 <= i < cs.len()) {
        Seq::empty()
    } else {
        rs_impl_member_piece(cs, i) + rs_impl_members_spec(cs, i + 1)
    }
}

pub open spec fn rs_impl_head(n: SynNode) -> Seq<char> {
    let t = match field_text(n, "type"@) {
        Some(t) => t,
        None => "UnknownType"@,
    };
    "impl "@ + t + " {\n"@
}

pub open spec fn rs_impl_spec(n: SynNode) -> Seq<char> {
    let j = idx_of_field(n.children@, "body"@);
    let mem = if 0 <= j < n.children@.len() {
        rs_impl_members_spec(n.children@[j].children@, 0)
    } else {
        Seq::empty()
    };
    rs_impl_head(n) + mem + "}\n"@
}

pub open spec fn rs_node_spec(n: SynNode) -> Seq<char>
    decreases n, 3int,
{
    if kind_is(n, "source_file"@) {
        rs_file_spec(n)
    } else if kind_is(n, "struct_item"@) {
        rs_struct_spec(n)
    } else if kind_is(n, "function_item"@) {
        rs_function_spec(n)
    } else if kind_is(n, "impl_item"@) {
        rs_impl_spec(n)
    } else if kind_is(n, "mod_item"@) {
        rs_mod_spec(n)
    } else {
        n.text@
    }
}

pub open spec fn rs_file_items_spec(cs: Seq<SynNode>, i: int) -> Seq<char>
    decreases cs, cs.len() - i,
{
    if !(0 <= i < cs.len()) {
        Seq::empty()
    } else {
        let t = rs_node_spec(cs[i]);
        (if all_ws(t) {
            Seq::empty()
        } else {
            t + "\n"@
        }) + rs_file_items_spec(cs, i + 1)
    }
}

pub open spec fn rs_file_spec(n: SynNode) -> Seq<char>
    decreases n, 2int,
{
    trim_end_spec(rs_file_items_spec(n.children@, 0))
}

/// What simplification yields for a Rust source text.
pub open spec fn rs_simplify_spec(code: Seq<char>) -> Option<Seq<char>> {
    match rs_tree_of(code) {
        Some(t) => Some(rs_node_spec(t)),
        None => None,
    }
}

pub fn process_node(n: &SynNode) -> (r: Vec<char>)
    ensures
        r@ == rs_node_spec(*n),
    decreases *n, 3int,
{
    if node_kind_is(n, "source_file") {
        process_source_file(n)
    } else if node_kind_is(n, "struct_item") {
        process_struct(n)
    } else if node_kind_is(n, "function_item") {
        process_function(n)
    } else if node_kind_is(n, "impl_item") {
        process_impl(n)
    } else if node_kind_is(n, "mod_item") {
        process_mod(n)
    } else {
        clone_chars(&n.text)
    }
}

pub fn process_source_file(n: &SynNode) -> (r: Vec<char>)
    ensures
        r@ == rs_file_spec(*n),
    decreases *n, 2int,
{
    let mut acc: Vec<char> = Vec::new();
    let mut i: usize = 0;
    while i < n.children.len()
        invariant
            i <= n.children@.len(),
            rs_file_items_spec(n.children@, 0) == acc@ + rs_file_items_spec(
                n.children@,
                i as int,
            ),
        decreases n.children@.len() - i,
    {
        let ghost acc0 = acc@;
        let t = process_node(&n.children[i]);
        if !is_blank(&t) {
            push_chars(&mut acc, &t);
            push_str(&mut acc, "\n");
        }
        proof {
            assert(acc0 + ((t@ + "\n"@) + rs_file_items_spec(n.children@, i + 1)) =~= ((acc0 + t@)
                + "\n"@) + rs_file_items_spec(n.children@, i + 1));
            assert(acc0 + (Seq::<char>::empty() + rs_file_items_spec(n.children@, i + 1)) =~= acc0
                + rs_file_items_spec(n.children@, i + 1));
        }
        i += 1;
    }
    proof {
        assert(acc@ + Seq::<char>::empty() =~= acc@);
    }
    trim_end(&acc)
}

pub fn process_function(n: &SynNode) -> (r: Vec<char>)
    ensures
        r@ == rs_function_spec(*n),
{
    let pre = take_to_char(&n.text, '{');
    let mut r = trim(&pre);
    push_str(&mut r, ";\n");
    r
}

pub fn process_mod(n: &SynNode) -> (r: Vec<char>)
    ensures
        r@ == rs_mod_spec(*n),
{
    let mut r: Vec<char> = Vec::new();
    push_str(&mut r, "mod ");
    match field_text_of(n, "name") {
        Some(v) => push_chars(&mut r, &v),
        None => push_str(&mut r, "unnamed_mod"),
    }
    push_str(&mut r, ";\n");
    r
}

pub fn process_impl(n: &SynNode) -> (r: Vec<char>)
    ensures
        r@ == rs_impl_spec(*n),
{
    let mut r: Vec<char> = Vec::new();
    push_str(&mut r, "impl ");
    match field_text_of(n, "type") {
        Some(v) => push_chars(&mut r, &v),
        None => push_str(&mut r, "UnknownType"),
    }
    push_str(&mut r, " {\n");
    match field_child(n, "body") {
        Some(j) => {
            let body = &n.children[j];
            let mut i: usize = 0;
            while i < body.children.len()
                invariant
                    i <= body.children@.len(),
                    *body == n.children@[idx_of_field(n.children@, "body"@)],
                    0 <= idx_of_field(n.children@, "body"@) < n.children@.len(),
                    rs_impl_head(*n) + rs_impl_members_spec(body.children@, 0) == r@
                        + rs_impl_members_spec(body.children@, i as int),
                decreases body.children@.len() - i,
            {
                let ghost r0 = r@;
                let c = &body.children[i];
                if !c.named {
                    // anonymous punctuation: the impl emits its own braces
                } else if node_kind_is(c, "function_item") {
                    let t = process_function(c);
                    let ind = indent4(&t);
                    push_chars(&mut r, &ind);
                } else {
                    let ind = indent4(&c.text);
                    push_chars(&mut r, &ind);
                }
                proof {
                    let piece = rs_impl_member_piece(body.children@, i as int);
                    assert(r0 + (piece + rs_impl_members_spec(body.children@, i + 1)) =~= (r0
                        + piece) + rs_impl_members_spec(body.children@, i + 1));
                    assert(r0 + (Seq::<char>::empty() + rs_impl_members_spec(
                        body.children@,
                        i + 1,
                    )) =~= r0 + rs_impl_members_spec(body.children@, i + 1));
                }
                i += 1;
            }
            proof {
                assert(r@ + Seq::<char>::empty() =~= r@);
            }
        },
        None => {},
    }
    push_str(&mut r, "}\n");
    r
}

pub fn process_struct(n: &SynNode) -> (r: Vec<char>)
    ensures
        r@ == rs_struct_spec(*n),
{
    let tlen: usize = n.text.len();
    let lines = split_lines(&n.text);
    proof {
        lemma_split_lines_bounds(n.text@, 0, 0);
    }
    let mut r: Vec<char> = Vec::new();
    let mut in_body: bool = false;
    let mut brace: i128 = 0;
    let mut i: usize = 0;
    while i < lines.len()
        invariant
            lines.deep_view() == split_lines_spec(n.text@),
            tlen == n.text@.len(),
            lines.deep_view().len() <= tlen,
            sum_lens_from(lines.deep_view(), 0) <= tlen,
            i <= lines@.len(),
            brace <= i + sum_lens_from(lines.deep_view(), 0) - sum_lens_from(
                lines.deep_view(),
                i as int,
            ),
            -brace <= i + sum_lens_from(lines.deep_view(), 0) - sum_lens_from(
                lines.deep_view(),
                i as int,
            ),
            sum_lens_from(lines.deep_view(), i as int) <= sum_lens_from(lines.deep_view(), 0),
            rs_struct_lines(lines.deep_view(), 0, false, 0) == r@ + rs_struct_lines(
                lines.deep_view(),
                i as int,
                in_body,
                brace as int,
            ),
        decreases lines@.len() - i,
    {
        let ghost dv = lines.deep_view();
        let ghost r0 = r@;
        let ghost brace0 = brace as int;
        let ghost in0 = in_body;
        let line = &lines[i];
        proof {
            assert(dv[i as int] == lines@[i as int]@);
            assert(sum_lens_from(dv, i as int) == dv[i as int].len() + sum_lens_from(dv, i + 1));
        }
        let tl = trim(line);
        let keep = (tl.len() > 0 && tl[0] == '#') || contains_str(line, "struct");
        if keep {
            push_chars(&mut r, line);
            push_str(&mut r, "\n");
            if contains_char(line, '{') {
                in_body = true;
                brace = brace + 1;
            }
            proof {
                assert(r0 + ((dv[i as int] + "\n"@) + rs_struct_lines(
                    dv,
                    i + 1,
                    in_body,
                    brace as int,
                )) =~= ((r0 + dv[i as int]) + "\n"@) + rs_struct_lines(
                    dv,
                    i + 1,
                    in_body,
                    brace as int,
                ));
            }
        } else if in_body {
            let opens = count_char_in(line, '{');
            let closes = count_char_in(line, '}');
            proof {
                lemma_count_char_le(dv[i as int], '{', 0);
                lemma_count_char_le(dv[i as int], '}', 0);
            }
            brace = brace + opens as i128 - closes as i128;
            let is_fn = contains_str(line, "fn ");
            if is_fn {
                push_str(&mut r, "    ");
                let pre = take_to_char(line, '{');
                let sig = trim(&pre);
                push_chars(&mut r, &sig);
                push_str(&mut r, " { ... }\n");
                if brace > 1 {
                    brace = 1;
                }
            } else if !(tl.len() > 0 && tl[0] == '}') {
                push_chars(&mut r, line);
                push_str(&mut r, "\n");
            }
            let ghost piece = if is_fn {
                "    "@ + trim_spec(prefix_to_char(dv[i as int], '{')) + " { ... }\n"@
            } else if !starts_with_char(trim_spec(dv[i as int]), '}') {
                dv[i as int] + "\n"@
            } else {
                Seq::<char>::empty()
            };
            proof {
                assert(r@ == r0 + piece) by {
                    if is_fn {
                        assert(((r0 + "    "@) + trim_spec(prefix_to_char(dv[i as int], '{')))
                            + " { ... }\n"@ =~= r0 + piece);
                    } else if !starts_with_char(trim_spec(dv[i as int]), '}') {
                        assert((r0 + dv[i as int]) + "\n"@ =~= r0 + piece);
                    } else {
                        assert(r0 + piece =~= r0);
                    }
                }
            }
            if brace == 0 {
                in_body = false;
                push_str(&mut r, "}\n");
            }
            proof {
                assert(r@ + rs_struct_lines(dv, i + 1, in_body, brace as int) =~= r0 + (piece + (
                if brace as int == 0 {
                    "}\n"@ + rs_struct_lines(dv, i + 1, in_body, brace as int)
                } else {
                    rs_struct_lines(dv, i + 1, in_body, brace as int)
                })));
            }
        }
        i += 1;
    }
    proof {
        assert(r@ + Seq::<char>::empty() =~= r@);
    }
    r
}

/// Segmenter for Rust sources: holds the parsed tree of one file.
pub struct RustSegmenter {
    pub tree: SynNode,
}

impl RustSegmenter {
    /// Parses the text; `None` reports a parse failure, never a panic.
    pub fn new(code: &str) -> (r: Option<RustSegmenter>)
        ensures
            match r {
                Some(s) => rs_tree_of(code@) == Some(s.tree),
                None => rs_tree_of(code@) is None,
            },
    {
        match parse_rust(code) {
            Some(t) => Some(RustSegmenter { tree: t }),
            None => None,
        }
    }

    /// The simplified text: a pure function of the parsed tree.
    pub fn simplify_code(&self) -> (r: String)
        ensures
            r@ == rs_node_spec(self.tree),
    {
        let v = process_node(&self.tree);
        chars_to_string(&v)
    }
}

/// Body elision: a function item keeps only what stands before its first
/// opening brace; the body is replaced by a semicolon.
pub proof fn lemma_rust_body_elision(n: SynNode)
    ensures
        rs_function_spec(n) == trim_spec(prefix_to_char(n.text@, '{')) + ";\n"@,
{
}

} // verus!
