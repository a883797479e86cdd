//! The library's own model of a parsed syntax tree.
//!
//! A `SynNode` carries, as plain values, everything the segmentation rules
//! read from a parse tree: the node kind, the node's source text, whether the
//! node is named, the field label its parent gave it, and its children in
//! source order.

use vstd::prelude::*;
use crate::text::chars_eq_str;

verus! {

pub struct SynNode {
    /// Grammar kind name of the node.
    pub kind: Vec<char>,
    /// True for named grammar nodes, false for anonymous tokens.
    pub named: bool,
    /// Field label this node carries in its parent, if any.
    pub field: Option<Vec<char>>,
    /// The node's own source text.
    pub text: Vec<char>,
    /// Children in source order, named and anonymous alike.
    pub children: Vec<SynNode>,
}

pub open spec fn kind_is(n: SynNode, k: Seq<char>) -> bool {
    n.kind@ == k
}

pub open spec fn field_matches(n: SynNode, name: Seq<char>) -> bool {
    match n.field {
        Some(f) => f@ == name,
        None => false,
    }
}

/// Index of the first child at or after `i` whose field label is `name`,
/// or `-1` when there is none.
pub open spec fn idx_of_field_from(cs: Seq<SynNode>, name: Seq<char>, i: int) -> int
    decreases cs.len() - i,
{
    if i < 0 || i >= cs.len() {
        -1
    } else if field_matches(cs[i], name) {
        i
    } else {
        idx_of_field_from(cs, name, i + 1)
    }
}

pub open spec fn idx_of_field(cs: Seq<SynNode>, name: Seq<char>) -> int {
    idx_of_field_from(cs, name, 0)
}

/// Index of the first child at or after `i` of kind `k`, or `-1`.
pub open spec fn idx_of_kind_from(cs: Seq<SynNode>, k: Seq<char>, i: int) -> int
    decreases cs.len() - i,
{
    if i < 0 || i >= cs.len() {
        -1
    } else if kind_is(cs[i], k) {
        i
    } else {
        idx_of_kind_from(cs, k, i + 1)
    }
}

pub open spec fn idx_of_kind(cs: Seq<SynNode>, k: Seq<char>) -> int {
    idx_of_kind_from(cs, k, 0)
}

pub fn node_kind_is(n: &SynNode, k: &str) -> (r: bool)
    ensures
        r == kind_is(*n, k@),
{
    chars_eq_str(&n.kind, k)
}

/// Position of the first child whose field label is `name`, as the parse
/// trees' field lookup finds it.
pub fn field_child(n: &SynNode, name: &str) -> (r: Option<usize>)
    ensures
        match r {
            Some(j) => j == idx_of_field(n.children@, name@) && 0 <= j < n.children@.len(),
            None => idx_of_field(n.children@, name@) < 0,
        },
{
    let mut i: usize = 0;
    while i < n.children.len()
        invariant
            i <= n.children@.len(),
            idx_of_field_from(n.children@, name@, 0) == idx_of_field_from(
                n.children@,
                name@,
                i as int,
            ),
        decreases n.children@.len() - i,
    {
        let matched = match &n.children[i].field {
            Some(f) => chars_eq_str(f, name),
            None => false,
        };
        if matched {
            proof {
                assert(idx_of_field_from(n.children@, name@, i as int) == i as int);
            }
            return Some(i);
        }
        i += 1;
    }
    None
}

/// Text of the first child whose field label is `name`, if there is one.
pub open spec fn field_text(n: SynNode, name: Seq<char>) -> Option<Seq<char>> {
    let j = idx_of_field(n.children@, name);
    if 0 <= j < n.children@.len() {
        Some(n.children@[j].text@)
    } else {
        None
    }
}

pub fn field_text_of(n: &SynNode, name: &str) -> (r: Option<Vec<char>>)
    ensures
        match r {
            Some(v) => field_text(*n, name@) == Some(v@),
            None => field_text(*n, name@) is None,
        },
{
    match field_child(n, name) {
        Some(j) => Some(crate::text::clone_chars(&n.children[j].text)),
        None => None,
    }
}

/// Text of the first child of kind `k`, if there is one.
pub open spec fn kind_text(n: SynNode, k: Seq<char>) -> Option<Seq<char>> {
    let j = idx_of_kind(n.children@, k);
    if 0 <= j < n.children@.len() {
        Some(n.children@[j].text@)
    } else {
        None
    }
}

pub fn kind_text_of(n: &SynNode, k: &str) -> (r: Option<Vec<char>>)
    ensures
        match r {
            Some(v) => kind_text(*n, k@) == Some(v@),
            None => kind_text(*n, k@) is None,
        },
{
    match kind_child(n, k) {
        Some(j) => Some(crate::text::clone_chars(&n.children[j].text)),
        None => None,
    }
}

/// Position of the first child of kind `k`, for grammars that label no
/// fields.
pub fn kind_child(n: &SynNode, k: &str) -> (r: Option<usize>)
    ensures
        match r {
            Some(j) => j == idx_of_kind(n.children@, k@) && 0 <= j < n.children@.len(),
            None => idx_of_kind(n.children@, k@) < 0,
        },
{
    let mut i: usize = 0;
    while i < n.children.len()
        invariant
            i <= n.children@.len(),
            idx_of_kind_from(n.children@, k@, 0) == idx_of_kind_from(n.children@, k@, i as int),
        decreases n.children@.len() - i,
    {
        if node_kind_is(&n.children[i], k) {
            proof {
                assert(idx_of_kind_from(n.children@, k@, i as int) == i as int);
            }
            return Some(i);
        }
        i += 1;
    }
    None
}

} // verus!
