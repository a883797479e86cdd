//! Directory walker: file collection and the pruned tree rendering.
//!
//! A directory tree is handed in as a plain value (`FsTree`).  Collection
//! enumerates every regular file with an explicit work stack and applies no
//! exclusions; the human-readable rendering prunes a fixed set of noise
//! names and hidden entries, and sorts each level by name.  That asymmetry
//! is deliberate: noisy-looking directories are still processed.

use vstd::prelude::*;
use crate::text::push_chars;
use crate::text::push_str;
use crate::text::clone_chars;
use crate::text::chars_eq_str;
use crate::text::starts_with_char;

verus! {

/// A directory entry as the library models the filesystem: a name, whether
/// it is a directory, and its entries in the order the filesystem gave them.
pub struct FsTree {
    pub name: Vec<char>,
    pub is_dir: bool,
    pub children: Vec<FsTree>,
}

/// Whether the rendering hides an entry of this name: hidden entries and a
/// fixed list of conventional noise names (dependency caches, build
/// outputs, coverage artifacts and the like).
pub open spec fn is_excluded(name: Seq<char>) -> bool {
    starts_with_char(name, '.') || name == "node_modules"@ || name == "target"@ || name == "dist"@
        || name == "build"@ || name == "vendor"@ || name == "__pycache__"@ || name == "logs"@
        || name == "coverage"@ || name == "venv"@ || name == "tmp"@ || name == "temp"@ || name
        == "cache"@ || name == "Pods"@ || name == "DerivedData"@ || name == "bin"@ || name
        == "pkg"@ || name == "migrations"@ || name == "CMakeFiles"@ || name == "CMakeCache.txt"@
        || name == "Gemfile.lock"@ || name == "composer.lock"@ || name == "_build"@ || name
        == "deps"@
}

pub fn name_excluded(name: &Vec<char>) -> (r: bool)
    ensures
        r == is_excluded(name@),
{
    (name.len() > 0 && name[0] == '.') || chars_eq_str(name, "node_modules") || chars_eq_str(
        name,
        "target",
    ) || chars_eq_str(name, "dist") || chars_eq_str(name, "build") || chars_eq_str(name, "vendor")
        || chars_eq_str(name, "__pycache__") || chars_eq_str(name, "logs") || chars_eq_str(
        name,
        "coverage",
    ) || chars_eq_str(name, "venv") || chars_eq_str(name, "tmp") || chars_eq_str(name, "temp")
        || chars_eq_str(name, "cache") || chars_eq_str(name, "Pods") || chars_eq_str(
        name,
        "DerivedData",
    ) || chars_eq_str(name, "bin") || chars_eq_str(name, "pkg") || chars_eq_str(name, "migrations")
        || chars_eq_str(name, "CMakeFiles") || chars_eq_str(name, "CMakeCache.txt")
        || chars_eq_str(name, "Gemfile.lock") || chars_eq_str(name, "composer.lock")
        || chars_eq_str(name, "_build") || chars_eq_str(name, "deps")
}

/// Lexicographic order on names, by code point, from position `i`.
pub open spec fn lex_le_from(a: Seq<char>, b: Seq<char>, i: int) -> bool
    decreases a.len() - i,
{
    if i < 0 || i >= a.len() {
        true
    } else if i >= b.len() {
        false
    } else if (a[i] as u32) != (b[i] as u32) {
        (a[i] as u32) < (b[i] as u32)
    } else {
        lex_le_from(a, b, i + 1)
    }
}

pub open spec fn lex_le(a: Seq<char>, b: Seq<char>) -> bool {
    lex_le_from(a, b, 0)
}

pub fn chars_le(a: &Vec<char>, b: &Vec<char>) -> (r: bool)
    ensures
        r == lex_le(a@, b@),
{
    let mut i: usize = 0;
    while i < a.len() && i < b.len() && (a[i] as u32) == (b[i] as u32)
        invariant
            i <= a@.len(),
            i <= b@.len(),
            lex_le(a@, b@) == lex_le_from(a@, b@, i as int),
        decreases a@.len() - i,
    {
        i += 1;
    }
    if i >= a.len() {
        true
    } else if i >= b.len() {
        false
    } else {
        (a[i] as u32) < (b[i] as u32)
    }
}

/// The views of an index vector, as mathematical integers.
pub open spec fn to_ints(u: Seq<usize>) -> Seq<int> {
    Seq::new(u.len(), |i: int| u[i] as int)
}

/// Where a new index lands in an index list that is sorted by entry name:
/// after every entry whose name is lexicographically at most the new one.
pub open spec fn ins_pos(s: Seq<FsTree>, ord: Seq<int>, j: int, k: int) -> int
    decreases ord.len() - k,
{
    if !(0 <= k < ord.len()) {
        ord.len() as int
    } else if 0 <= ord[k] < s.len() && 0 <= j < s.len() && lex_le(s[ord[k]].name@, s[j].name@) {
        ins_pos(s, ord, j, k + 1)
    } else {
        k
    }
}

pub open spec fn insert_idx(s: Seq<FsTree>, ord: Seq<int>, j: int) -> Seq<int> {
    let p = ins_pos(s, ord, j, 0);
    ord.subrange(0, p) + seq![j] + ord.subrange(p, ord.len() as int)
}

/// The display order of the first `i` entries: hidden and noise names are
/// left out, the rest are insertion-sorted by name, in reading order.
pub open spec fn order_upto(s: Seq<FsTree>, i: int) -> Seq<int>
    decreases i,
{
    if i <= 0 {
        Seq::empty()
    } else if !(i <= s.len()) {
        order_upto(s, i - 1)
    } else if is_excluded(s[i - 1].name@) {
        order_upto(s, i - 1)
    } else {
        insert_idx(s, order_upto(s, i - 1), i - 1)
    }
}

pub open spec fn display_order(s: Seq<FsTree>) -> Seq<int> {
    order_upto(s, s.len() as int)
}

proof fn lemma_ins_pos_range(s: Seq<FsTree>, ord: Seq<int>, j: int, k: int)
    requires
        0 <= k <= ord.len(),
    ensures
        k <= ins_pos(s, ord, j, k) <= ord.len(),
    decreases ord.len() - k,
{
    if k < ord.len() {
        lemma_ins_pos_range(s, ord, j, k + 1);
    }
}

/// Every index the display order selects points, in range, at an entry
/// whose name is not excluded: the renderer never shows a pruned entry.
pub proof fn lemma_order_upto_sound(s: Seq<FsTree>, i: int)
    requires
        i <= s.len(),
    ensures
        forall|k: int|
            0 <= k < order_upto(s, i).len() ==> 0 <= #[trigger] order_upto(s, i)[k] < i
                && !is_excluded(s[order_upto(s, i)[k]].name@),
    decreases i,
{
    if i <= 0 {
    } else {
        lemma_order_upto_sound(s, i - 1);
        if !is_excluded(s[i - 1].name@) {
            let prev = order_upto(s, i - 1);
            let p = ins_pos(s, prev, i - 1, 0);
            lemma_ins_pos_range(s, prev, i - 1, 0);
            assert forall|k: int| 0 <= k < order_upto(s, i).len() implies 0
                <= #[trigger] order_upto(s, i)[k] < i && !is_excluded(
                s[order_upto(s, i)[k]].name@,
            ) by {
                if k < p {
                    assert(order_upto(s, i)[k] == prev[k]);
                } else if k == p {
                    assert(order_upto(s, i)[k] == i - 1);
                } else {
                    assert(order_upto(s, i)[k] == prev[k - 1]);
                }
            }
        }
    }
}

/// Tree exclusion: no noise-named and no hidden entry is ever selected for
/// the rendered tree, at any level; entries the display order passes over
/// are exactly those and only those.  Files under such directories are
/// still collected for processing, which `files_under` states separately.
pub proof fn lemma_tree_exclusion(s: Seq<FsTree>, k: int)
    requires
        0 <= k < display_order(s).len(),
    ensures
        0 <= display_order(s)[k] < s.len(),
        !is_excluded(s[display_order(s)[k]].name@),
{
    lemma_order_upto_sound(s, s.len() as int);
}

/// The entry names the rendering shows for a tree, in rendering order:
/// the entry's own name, then the names shown for its displayed children.
pub open spec fn rendered_names(t: FsTree) -> Seq<Seq<char>>
    decreases t, 0int,
{
    seq![t.name@] + (if t.is_dir {
        rendered_names_list(t.children@, display_order(t.children@), 0)
    } else {
        Seq::empty()
    })
}

pub open spec fn rendered_names_list(cs: Seq<FsTree>, ord: Seq<int>, k: int) -> Seq<Seq<char>>
    decreases cs, ord.len() - k,
{
    if !(0 <= k < ord.len()) {
        Seq::empty()
    } else if !(0 <= ord[k] < cs.len()) {
        rendered_names_list(cs, ord, k + 1)
    } else {
        rendered_names(cs[ord[k]]) + rendered_names_list(cs, ord, k + 1)
    }
}

proof fn lemma_rendered_list_clean(cs: Seq<FsTree>, ord: Seq<int>, k: int)
    requires
        forall|j: int|
            k <= j < ord.len() ==> 0 <= #[trigger] ord[j] < cs.len() && !is_excluded(
                cs[ord[j]].name@,
            ),
    ensures
        forall|m: int|
            0 <= m < rendered_names_list(cs, ord, k).len() ==> !is_excluded(
                #[trigger] rendered_names_list(cs, ord, k)[m],
            ),
    decreases cs, ord.len() - k,
{
    if 0 <= k < ord.len() {
        let head = rendered_names(cs[ord[k]]);
        let tail = rendered_names_list(cs, ord, k + 1);
        lemma_rendered_clean(cs[ord[k]]);
        lemma_rendered_list_clean(cs, ord, k + 1);
        assert forall|m: int| 0 <= m < rendered_names_list(cs, ord, k).len() implies !is_excluded(
            #[trigger] rendered_names_list(cs, ord, k)[m],
        ) by {
            if m < head.len() {
                assert(rendered_names_list(cs, ord, k)[m] == head[m]);
                if m == 0 {
                    assert(head[0] == cs[ord[k]].name@);
                }
            } else {
                assert(rendered_names_list(cs, ord, k)[m] == tail[m - head.len()]);
            }
        }
    }
}

/// Tree exclusion, stated over the shown names: below the root entry, no
/// name the rendering ever shows is a hidden or noise name.
pub proof fn lemma_rendered_clean(t: FsTree)
    ensures
        forall|m: int|
            1 <= m < rendered_names(t).len() ==> !is_excluded(#[trigger] rendered_names(t)[m]),
    decreases t, 1int,
{
    if t.is_dir {
        let ord = display_order(t.children@);
        lemma_order_upto_sound(t.children@, t.children@.len() as int);
        lemma_rendered_list_clean(t.children@, ord, 0);
        let tail = rendered_names_list(t.children@, ord, 0);
        assert forall|m: int| 1 <= m < rendered_names(t).len() implies !is_excluded(
            #[trigger] rendered_names(t)[m],
        ) by {
            assert(rendered_names(t)[m] == tail[m - 1]);
        }
    }
}

proof fn lemma_lex_le_total(a: Seq<char>, b: Seq<char>, i: int)
    requires
        0 <= i,
    ensures
        lex_le_from(a, b, i) || lex_le_from(b, a, i),
    decreases a.len() - i,
{
    if i < a.len() && i < b.len() && (a[i] as u32) == (b[i] as u32) {
        lemma_lex_le_total(a, b, i + 1);
    }
}

proof fn lemma_lex_le_trans(a: Seq<char>, b: Seq<char>, c: Seq<char>, i: int)
    requires
        0 <= i,
        lex_le_from(a, b, i),
        lex_le_from(b, c, i),
    ensures
        lex_le_from(a, c, i),
    decreases a.len() - i,
{
    if i < a.len() && i < b.len() && i < c.len() && (a[i] as u32) == (b[i] as u32) && (
    b[i] as u32) == (c[i] as u32) {
        lemma_lex_le_trans(a, b, c, i + 1);
    }
}

proof fn lemma_ins_pos_prefix(s: Seq<FsTree>, ord: Seq<int>, j: int, k: int)
    requires
        0 <= k <= ord.len(),
    ensures
        forall|q: int|
            k <= q < ins_pos(s, ord, j, k) ==> 0 <= #[trigger] ord[q] < s.len() && 0 <= j < s.len()
                && lex_le(s[ord[q]].name@, s[j].name@),
        ins_pos(s, ord, j, k) < ord.len() ==> !(0 <= ord[ins_pos(s, ord, j, k)] < s.len() && 0 <= j
            < s.len() && lex_le(s[ord[ins_pos(s, ord, j, k)]].name@, s[j].name@)),
    decreases ord.len() - k,
{
    if k < ord.len() && 0 <= ord[k] < s.len() && 0 <= j < s.len() && lex_le(
        s[ord[k]].name@,
        s[j].name@,
    ) {
        lemma_ins_pos_prefix(s, ord, j, k + 1);
    }
}

/// An index list whose in-range entries stand in nondecreasing name order.
pub open spec fn names_sorted(s: Seq<FsTree>, ord: Seq<int>) -> bool {
    forall|k: int, l: int|
        0 <= k < l < ord.len() && 0 <= #[trigger] ord[k] < s.len() && 0 <= #[trigger] ord[l]
            < s.len() ==> lex_le(s[ord[k]].name@, s[ord[l]].name@)
}

proof fn lemma_insert_idx_sorted(s: Seq<FsTree>, ord: Seq<int>, j: int)
    requires
        names_sorted(s, ord),
        0 <= j < s.len(),
        forall|q: int| 0 <= q < ord.len() ==> 0 <= #[trigger] ord[q] < s.len(),
    ensures
        names_sorted(s, insert_idx(s, ord, j)),
{
    let p = ins_pos(s, ord, j, 0);
    lemma_ins_pos_range(s, ord, j, 0);
    lemma_ins_pos_prefix(s, ord, j, 0);
    let new = insert_idx(s, ord, j);
    if p < ord.len() {
        // the scan stopped there, so the entry is not at most the new name
        lemma_lex_le_total(s[ord[p]].name@, s[j].name@, 0);
        assert(lex_le(s[j].name@, s[ord[p]].name@));
    }
    assert forall|k: int, l: int|
        0 <= k < l < new.len() && 0 <= #[trigger] new[k] < s.len() && 0 <= #[trigger] new[l]
            < s.len() implies lex_le(s[new[k]].name@, s[new[l]].name@) by {
        if k < p {
            assert(new[k] == ord[k]);
        } else if k == p {
            assert(new[k] == j);
        } else {
            assert(new[k] == ord[k - 1]);
        }
        if l < p {
            assert(new[l] == ord[l]);
        } else if l == p {
            assert(new[l] == j);
        } else {
            assert(new[l] == ord[l - 1]);
        }
        if k == p && l > p && l - 1 > p {
            // the new entry against a later one: through the stop element
            lemma_lex_le_trans(s[j].name@, s[ord[p]].name@, s[ord[l - 1]].name@, 0);
        }
    }
}

proof fn lemma_order_upto_sorted(s: Seq<FsTree>, i: int)
    requires
        i <= s.len(),
    ensures
        names_sorted(s, order_upto(s, i)),
    decreases i,
{
    if i > 0 {
        lemma_order_upto_sorted(s, i - 1);
        lemma_order_upto_sound(s, i - 1);
        if !is_excluded(s[i - 1].name@) {
            lemma_insert_idx_sorted(s, order_upto(s, i - 1), i - 1);
        }
    }
}

/// The rendering shows each directory's entries sorted: the display order
/// lists them in lexicographically nondecreasing name order.
pub proof fn lemma_display_order_sorted(s: Seq<FsTree>, k: int, l: int)
    requires
        0 <= k < l < display_order(s).len(),
    ensures
        lex_le(s[display_order(s)[k]].name@, s[display_order(s)[l]].name@),
{
    lemma_order_upto_sound(s, s.len() as int);
    lemma_order_upto_sorted(s, s.len() as int);
}

pub open spec fn glyph(is_last: bool) -> Seq<char> {
    if is_last {
        "└── "@
    } else {
        "├── "@
    }
}

pub open spec fn child_pad(is_last: bool) -> Seq<char> {
    if is_last {
        "    "@
    } else {
        "│   "@
    }
}

/// One rendered entry line: accumulated prefix, branch glyph, entry name.
pub open spec fn entry_line(t: FsTree, prefix: Seq<char>, is_last: bool) -> Seq<char> {
    prefix + glyph(is_last) + t.name@ + "\n"@
}

/// The pruned, sorted rendering of a tree: the entry's own line, then, for
/// a directory, its children in display order, each with a prefix one
/// level deeper.
pub open spec fn render_spec(t: FsTree, prefix: Seq<char>, is_last: bool) -> Seq<char>
    decreases t, 0int,
{
    if t.is_dir {
        entry_line(t, prefix, is_last) + render_children_spec(
            t.children@,
            display_order(t.children@),
            0,
            prefix + child_pad(is_last),
        )
    } else {
        entry_line(t, prefix, is_last)
    }
}

pub open spec fn render_children_spec(
    cs: Seq<FsTree>,
    ord: Seq<int>,
    k: int,
    prefix: Seq<char>,
) -> Seq<char>
    decreases cs, ord.len() - k,
{
    if !(0 <= k < ord.len()) {
        Seq::empty()
    } else if !(0 <= ord[k] < cs.len()) {
        render_children_spec(cs, ord, k + 1, prefix)
    } else {
        render_spec(cs[ord[k]], prefix, k == ord.len() - 1) + render_children_spec(
            cs,
            ord,
            k + 1,
            prefix,
        )
    }
}

/// The files below a tree, every one of them: no exclusions apply to
/// collection, only to the rendering.
pub open spec fn files_under(t: FsTree, prefix: Seq<char>) -> Seq<Seq<char>>
    decreases t, 0int,
{
    if t.is_dir {
        files_in_list(t.children@, 0, prefix + t.name@ + "/"@)
    } else {
        seq![prefix + t.name@]
    }
}

pub open spec fn files_in_list(cs: Seq<FsTree>, i: int, prefix: Seq<char>) -> Seq<Seq<char>>
    decreases cs, cs.len() - i,
{
    if !(0 <= i < cs.len()) {
        Seq::empty()
    } else {
        files_under(cs[i], prefix) + files_in_list(cs, i + 1, prefix)
    }
}

/// Compute the display order of a directory's entries.
fn compute_order(cs: &Vec<FsTree>) -> (ord: Vec<usize>)
    ensures
        to_ints(ord@) == display_order(cs@),
        forall|m: int| 0 <= m < ord@.len() ==> #[trigger] ord@[m] < cs@.len(),
{
    let mut ord: Vec<usize> = Vec::new();
    let mut i: usize = 0;
    while i < cs.len()
        invariant
            i <= cs@.len(),
            to_ints(ord@) == order_upto(cs@, i as int),
            forall|m: int| 0 <= m < ord@.len() ==> #[trigger] ord@[m] < i,
        decreases cs@.len() - i,
    {
        if !name_excluded(&cs[i].name) {
            let ghost prev = to_ints(ord@);
            let mut p: usize = 0;
            while p < ord.len() && chars_le(&cs[ord[p]].name, &cs[i].name)
                invariant
                    p <= ord@.len(),
                    i < cs@.len(),
                    to_ints(ord@) == prev,
                    forall|m: int| 0 <= m < ord@.len() ==> #[trigger] ord@[m] < i,
                    ins_pos(cs@, prev, i as int, 0) == ins_pos(cs@, prev, i as int, p as int),
                decreases ord@.len() - p,
            {
                proof {
                    assert(prev[p as int] == ord@[p as int] as int);
                }
                p += 1;
            }
            proof {
                assert(ins_pos(cs@, prev, i as int, p as int) == p as int) by {
                    if p < ord.len() {
                        assert(prev[p as int] == ord@[p as int] as int);
                    }
                }
            }
            ord.insert(p, i);
            proof {
                assert(to_ints(ord@) =~= insert_idx(cs@, prev, i as int));
                assert(to_ints(ord@) == order_upto(cs@, i + 1));
            }
        }
        i += 1;
    }
    ord
}

/// Render the pruned directory tree of `t`, as the summary document shows
/// it: entries sorted by name at each level, hidden and noise names left
/// out, branch glyphs marking interior and last children.
pub fn render_tree(t: &FsTree, prefix: &Vec<char>, is_last: bool) -> (r: Vec<char>)
    ensures
        r@ == render_spec(*t, prefix@, is_last),
    decreases *t, 0int,
{
    let mut r: Vec<char> = Vec::new();
    push_chars(&mut r, prefix);
    if is_last {
        push_str(&mut r, "└── ");
    } else {
        push_str(&mut r, "├── ");
    }
    push_chars(&mut r, &t.name);
    push_str(&mut r, "\n");
    if t.is_dir {
        let mut pad = clone_chars(prefix);
        if is_last {
            push_str(&mut pad, "    ");
        } else {
            push_str(&mut pad, "│   ");
        }
        let ord = compute_order(&t.children);
        let ghost ordi = to_ints(ord@);
        let ghost entry = entry_line(*t, prefix@, is_last);
        let mut k: usize = 0;
        while k < ord.len()
            invariant
                k <= ord@.len(),
                ordi == to_ints(ord@),
                ordi == display_order(t.children@),
                forall|m: int| 0 <= m < ord@.len() ==> #[trigger] ord@[m] < t.children@.len(),
                pad@ == prefix@ + child_pad(is_last),
                entry + render_children_spec(t.children@, ordi, 0, pad@) == r@
                    + render_children_spec(t.children@, ordi, k as int, pad@),
            decreases ord@.len() - k,
        {
            let ghost r0 = r@;
            let c = &t.children[ord[k]];
            let sub = render_tree(c, &pad, k == ord.len() - 1);
            push_chars(&mut r, &sub);
            proof {
                assert(ordi[k as int] == ord@[k as int] as int);
                assert(r0 + (sub@ + render_children_spec(t.children@, ordi, k + 1, pad@)) =~= (r0
                    + sub@) + render_children_spec(t.children@, ordi, k + 1, pad@));
            }
            k += 1;
        }
        proof {
            assert(r@ + Seq::<char>::empty() =~= r@);
        }
    }
    r
}

/// Enumerate every file below `t`, by full path, with an explicit work
/// stack rather than recursion; nothing is excluded here.
pub fn collect_files(t: &FsTree, prefix: &Vec<char>) -> (r: Vec<Vec<char>>)
    ensures
        r.deep_view() == files_under(*t, prefix@),
{
    let mut r: Vec<Vec<char>> = Vec::new();
    let mut stack: Vec<(&FsTree, Vec<char>)> = Vec::new();
    let pre0 = clone_chars(prefix);
    let ghost pv = pre0@;
    stack.push((t, pre0));
    proof {
        assert(stack@.len() == 1);
        assert(stack@.last().0 == t);
        assert(stack@.last().1@ == pv);
        assert(stack@.drop_last().len() == 0);
        assert(stack_files(stack@) == files_under(*t, pv) + stack_files(stack@.drop_last()));
        assert(files_under(*t, prefix@) + Seq::<Seq<char>>::empty() =~= files_under(*t, prefix@));
    }
    while stack.len() > 0
        invariant
            files_under(*t, prefix@) == r.deep_view() + stack_files(stack@),
        decreases stack_measure(stack@),
    {
        let (node, pre) = stack.pop().unwrap();
        let ghost rest = stack@;
        if node.is_dir {
            let mut dirpre = clone_chars(&pre);
            push_chars(&mut dirpre, &node.name);
            push_str(&mut dirpre, "/");
            let mut j: usize = node.children.len();
            proof {
                assert(files_in_list(node.children@, node.children@.len() as int, dirpre@)
                    =~= Seq::<Seq<char>>::empty());
                assert(Seq::<Seq<char>>::empty() + stack_files(rest) =~= stack_files(rest));
            }
            while j > 0
                invariant
                    j <= node.children@.len(),
                    dirpre@ == pre@ + node.name@ + "/"@,
                    stack_files(stack@) == files_in_list(node.children@, j as int, dirpre@)
                        + stack_files(rest),
                    stack_measure(stack@) <= stack_measure(rest) + list_measure(
                        node.children@,
                        j as int,
                    ),
                decreases j,
            {
                j -= 1;
                let ghost st0 = stack@;
                stack.push((&node.children[j], clone_chars(&dirpre)));
                proof {
                    assert(stack@.drop_last() =~= st0);
                    assert(stack_files(stack@) == files_under(node.children@[j as int], dirpre@)
                        + (files_in_list(node.children@, j + 1, dirpre@) + stack_files(rest)));
                    assert(files_under(node.children@[j as int], dirpre@) + (files_in_list(
                        node.children@,
                        j + 1,
                        dirpre@,
                    ) + stack_files(rest)) =~= (files_under(node.children@[j as int], dirpre@)
                        + files_in_list(node.children@, j + 1, dirpre@)) + stack_files(rest));
                }
            }
        } else {
            let mut path = clone_chars(&pre);
            push_chars(&mut path, &node.name);
            let ghost dv0 = r.deep_view();
            r.push(path);
            proof {
                assert(r.deep_view() =~~= dv0.push(pre@ + node.name@));
                assert(dv0 + (seq![pre@ + node.name@] + stack_files(rest)) =~= dv0.push(
                    pre@ + node.name@,
                ) + stack_files(rest));
            }
        }
    }
    proof {
        assert(r.deep_view() + Seq::<Seq<char>>::empty() =~= r.deep_view());
    }
    r
}

/// The files still owed by the work stack, top of stack first.
pub open spec fn stack_files(st: Seq<(&FsTree, Vec<char>)>) -> Seq<Seq<char>>
    decreases st.len(),
{
    if st.len() == 0 {
        Seq::empty()
    } else {
        files_under(*st.last().0, st.last().1@) + stack_files(st.drop_last())
    }
}

/// A termination measure for the stack walk: total tree sizes on the stack.
pub open spec fn tree_size(t: FsTree) -> nat
    decreases t, 0int,
{
    1 + list_measure(t.children@, 0)
}

pub open spec fn list_measure(cs: Seq<FsTree>, i: int) -> nat
    decreases cs, cs.len() - i,
{
    if !(0 <= i < cs.len()) {
        0
    } else {
        tree_size(cs[i]) + list_measure(cs, i + 1)
    }
}

pub open spec fn stack_measure(st: Seq<(&FsTree, Vec<char>)>) -> nat
    decreases st.len(),
{
    if st.len() == 0 {
        0
    } else {
        tree_size(*st.last().0) + stack_measure(st.drop_last())
    }
}

} // verus!
