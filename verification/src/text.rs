//! Text utilities over character vectors.
//!
//! All segmentation logic works on `Vec<char>` values whose mathematical
//! model is `Seq<char>`; these helpers supply the string operations the
//! segmenters need, each pinned to a spec-level definition.

use vstd::prelude::*;
use vstd::string::StrSliceExecFns;

verus! {

/// Whitespace as this library trims it: the ASCII blank characters.
pub open spec fn is_ws_char(c: char) -> bool {
    c == ' ' || c == '\t' || c == '\n' || c == '\r' || c == '\u{b}' || c == '\u{c}'
}

/// A text is blank when every character is whitespace.
pub open spec fn all_ws(s: Seq<char>) -> bool {
    forall|i: int| 0 <= i < s.len() ==> is_ws_char(s[i])
}

/// The text with its trailing whitespace removed.
pub open spec fn trim_end_spec(s: Seq<char>) -> Seq<char>
    decreases s.len(),
{
    if s.len() == 0 {
        s
    } else if is_ws_char(s.last()) {
        trim_end_spec(s.drop_last())
    } else {
        s
    }
}

pub fn is_ws(c: char) -> (r: bool)
    ensures
        r == is_ws_char(c),
{
    c == ' ' || c == '\t' || c == '\n' || c == '\r' || c == '\u{b}' || c == '\u{c}'
}

pub fn is_blank(s: &Vec<char>) -> (r: bool)
    ensures
        r == all_ws(s@),
{
    let mut i: usize = 0;
    while i < s.len()
        invariant
            i <= s@.len(),
            forall|j: int| 0 <= j < i ==> is_ws_char(s@[j]),
        decreases s@.len() - i,
    {
        if !is_ws(s[i]) {
            return false;
        }
        i += 1;
    }
    true
}

/// Copy of the characters in positions `a .. b`.
pub fn copy_range(s: &Vec<char>, a: usize, b: usize) -> (r: Vec<char>)
    requires
        a <= b <= s@.len(),
    ensures
        r@ == s@.subrange(a as int, b as int),
{
    let mut r: Vec<char> = Vec::new();
    let mut i: usize = a;
    while i < b
        invariant
            a <= i <= b <= s@.len(),
            r@ == s@.subrange(a as int, i as int),
        decreases b - i,
    {
        r.push(s[i]);
        proof {
            assert(s@.subrange(a as int, i + 1 as int) =~= s@.subrange(a as int, i as int).push(
                s@[i as int],
            ));
        }
        i += 1;
    }
    r
}

pub fn trim_end(s: &Vec<char>) -> (r: Vec<char>)
    ensures
        r@ == trim_end_spec(s@),
{
    let mut e: usize = s.len();
    proof {
        assert(s@.subrange(0, s@.len() as int) =~= s@);
    }
    while e > 0 && is_ws(s[e - 1])
        invariant
            e <= s@.len(),
            trim_end_spec(s@) == trim_end_spec(s@.subrange(0, e as int)),
        decreases e,
    {
        proof {
            let pre = s@.subrange(0, e as int);
            assert(pre.drop_last() =~= s@.subrange(0, e - 1 as int));
        }
        e -= 1;
    }
    proof {
        if e == 0 {
            assert(s@.subrange(0, 0) =~= Seq::<char>::empty());
        } else {
            assert(trim_end_spec(s@.subrange(0, e as int)) == s@.subrange(0, e as int));
        }
    }
    copy_range(s, 0, e)
}

pub fn chars_eq(a: &Vec<char>, b: &Vec<char>) -> (r: bool)
    ensures
        r == (a@ == b@),
{
    if a.len() != b.len() {
        return false;
    }
    let mut i: usize = 0;
    while i < a.len()
        invariant
            i <= a@.len(),
            a@.len() == b@.len(),
            forall|j: int| 0 <= j < i ==> a@[j] == b@[j],
        decreases a@.len() - i,
    {
        if a[i] != b[i] {
            return false;
        }
        i += 1;
    }
    proof {
        assert(a@ =~= b@);
    }
    true
}

/// Characters of a string slice, in order.
pub fn str_chars(s: &str) -> (v: Vec<char>)
    ensures
        v@ == s@,
{
    let n = s.unicode_len();
    let mut v: Vec<char> = Vec::new();
    let mut i: usize = 0;
    while i < n
        invariant
            i <= n,
            n == s@.len(),
            v@ == s@.subrange(0, i as int),
        decreases n - i,
    {
        v.push(s.get_char(i));
        proof {
            assert(s@.subrange(0, i + 1 as int) =~= s@.subrange(0, i as int).push(s@[i as int]));
        }
        i += 1;
    }
    proof {
        assert(s@.subrange(0, n as int) =~= s@);
    }
    v
}

pub fn chars_eq_str(a: &Vec<char>, s: &str) -> (r: bool)
    ensures
        r == (a@ == s@),
{
    let v = str_chars(s);
    chars_eq(a, &v)
}

/// Append a copy of `s` to `out`.
pub fn push_chars(out: &mut Vec<char>, s: &Vec<char>) -> (u: ())
    ensures
        final(out)@ == old(out)@ + s@,
{
    let mut i: usize = 0;
    while i < s.len()
        invariant
            i <= s@.len(),
            out@ == old(out)@ + s@.subrange(0, i as int),
        decreases s@.len() - i,
    {
        out.push(s[i]);
        proof {
            assert(old(out)@ + s@.subrange(0, i + 1 as int) =~= (old(out)@ + s@.subrange(
                0,
                i as int,
            )).push(s@[i as int]));
        }
        i += 1;
    }
    proof {
        assert(s@.subrange(0, s@.len() as int) =~= s@);
    }
}

/// Append the characters of a string slice to `out`.
pub fn push_str(out: &mut Vec<char>, s: &str) -> (u: ())
    ensures
        final(out)@ == old(out)@ + s@,
{
    let v = str_chars(s);
    push_chars(out, &v)
}

/// Relies on `core::iter::Iterator::collect`: a `String` collected from a
/// character iterator holds exactly those characters in order.
#[verifier::external_body]
pub(crate) fn chars_to_string(v: &Vec<char>) -> (s: String)
    ensures
        s@ == v@,
{
    v.iter().collect()
}

pub fn clone_chars(s: &Vec<char>) -> (r: Vec<char>)
    ensures
        r@ == s@,
{
    proof {
        assert(s@.subrange(0, s@.len() as int) =~= s@);
    }
    copy_range(s, 0, s.len())
}

/// The text with its leading whitespace removed.
pub open spec fn trim_start_spec(s: Seq<char>) -> Seq<char>
    decreases s.len(),
{
    if s.len() == 0 {
        s
    } else if is_ws_char(s.first()) {
        trim_start_spec(s.drop_first())
    } else {
        s
    }
}

/// The text with whitespace removed at both ends.
pub open spec fn trim_spec(s: Seq<char>) -> Seq<char> {
    trim_end_spec(trim_start_spec(s))
}

pub fn trim(s: &Vec<char>) -> (r: Vec<char>)
    ensures
        r@ == trim_spec(s@),
{
    let mut b: usize = 0;
    proof {
        assert(s@.subrange(0, s@.len() as int) =~= s@);
    }
    while b < s.len() && is_ws(s[b])
        invariant
            b <= s@.len(),
            trim_start_spec(s@) == trim_start_spec(s@.subrange(b as int, s@.len() as int)),
        decreases s@.len() - b,
    {
        proof {
            let suf = s@.subrange(b as int, s@.len() as int);
            assert(suf.drop_first() =~= s@.subrange(b + 1, s@.len() as int));
        }
        b += 1;
    }
    proof {
        if b == s@.len() {
            assert(s@.subrange(b as int, s@.len() as int) =~= Seq::<char>::empty());
        } else {
            assert(trim_start_spec(s@.subrange(b as int, s@.len() as int)) == s@.subrange(
                b as int,
                s@.len() as int,
            ));
        }
    }
    let st = copy_range(s, b, s.len());
    trim_end(&st)
}

/// How many occurrences of `c` stand at or after position `i`.
pub open spec fn count_char_from(s: Seq<char>, c: char, i: int) -> nat
    decreases s.len() - i,
{
    if !(0 <= i < s.len()) {
        0
    } else {
        (if s[i] == c {
            1nat
        } else {
            0nat
        }) + count_char_from(s, c, i + 1)
    }
}

pub open spec fn count_char(s: Seq<char>, c: char) -> nat {
    count_char_from(s, c, 0)
}

pub fn count_char_in(s: &Vec<char>, c: char) -> (r: usize)
    ensures
        r == count_char(s@, c),
{
    let mut cnt: usize = 0;
    let mut i: usize = 0;
    while i < s.len()
        invariant
            i <= s@.len(),
            cnt <= i,
            count_char(s@, c) == cnt + count_char_from(s@, c, i as int),
        decreases s@.len() - i,
    {
        if s[i] == c {
            cnt += 1;
        }
        i += 1;
    }
    cnt
}

/// Position of the first `c` at or after `i`, or the length when absent.
pub open spec fn idx_of_char_from(s: Seq<char>, c: char, i: int) -> int
    decreases s.len() - i,
{
    if !(0 <= i < s.len()) {
        s.len() as int
    } else if s[i] == c {
        i
    } else {
        idx_of_char_from(s, c, i + 1)
    }
}

/// The text up to (not including) the first `c`, or all of it.
pub open spec fn prefix_to_char(s: Seq<char>, c: char) -> Seq<char> {
    s.subrange(0, idx_of_char_from(s, c, 0))
}

pub fn take_to_char(s: &Vec<char>, c: char) -> (r: Vec<char>)
    ensures
        r@ == prefix_to_char(s@, c),
{
    let mut i: usize = 0;
    while i < s.len() && s[i] != c
        invariant
            i <= s@.len(),
            idx_of_char_from(s@, c, 0) == idx_of_char_from(s@, c, i as int),
        decreases s@.len() - i,
    {
        i += 1;
    }
    copy_range(s, 0, i)
}

pub fn contains_char(s: &Vec<char>, c: char) -> (r: bool)
    ensures
        r == (count_char(s@, c) > 0),
{
    let mut i: usize = 0;
    while i < s.len()
        invariant
            i <= s@.len(),
            count_char(s@, c) == count_char_from(s@, c, i as int),
        decreases s@.len() - i,
    {
        if s[i] == c {
            return true;
        }
        i += 1;
    }
    false
}

/// Whether the text begins with the character `c`.
pub open spec fn starts_with_char(s: Seq<char>, c: char) -> bool {
    s.len() > 0 && s[0] == c
}

/// Whether `sub` occurs contiguously anywhere in `s`.
pub open spec fn has_substr(s: Seq<char>, sub: Seq<char>) -> bool {
    exists|k: int|
        0 <= k && k + sub.len() <= s.len() && #[trigger] s.subrange(k, k + sub.len() as int) == sub
}

pub fn contains_str(s: &Vec<char>, sub: &str) -> (r: bool)
    ensures
        r == has_substr(s@, sub@),
{
    let subv = str_chars(sub);
    if subv.len() > s.len() {
        proof {
            assert(!has_substr(s@, sub@));
        }
        return false;
    }
    if subv.len() == 0 {
        proof {
            assert(s@.subrange(0, 0 + sub@.len() as int) =~= sub@);
        }
        return true;
    }
    let slen: usize = s.len();
    let mut k: usize = 0;
    while k <= slen - subv.len()
        invariant
            subv@ == sub@,
            slen == s@.len(),
            1 <= subv@.len() <= s@.len(),
            k <= s@.len() - subv@.len() + 1,
            forall|kk: int|
                0 <= kk < k ==> #[trigger] s@.subrange(kk, kk + sub@.len() as int) != sub@,
        decreases s@.len() - subv@.len() + 1 - k,
    {
        let mut j: usize = 0;
        let mut ok: bool = true;
        while j < subv.len()
            invariant
                subv@ == sub@,
                slen == s@.len(),
                1 <= subv@.len(),
                k + subv@.len() <= s@.len(),
                j <= subv@.len(),
                ok ==> forall|jj: int| 0 <= jj < j ==> s@[k + jj] == sub@[jj],
                !ok ==> s@.subrange(k as int, k + sub@.len() as int) != sub@,
            decreases subv@.len() - j,
        {
            let idx: usize = k + j;
            if s[idx] != subv[j] {
                proof {
                    assert(s@.subrange(k as int, k + sub@.len() as int)[j as int] == s@[idx as int]);
                }
                ok = false;
                j = subv.len();
            } else {
                j += 1;
            }
        }
        if ok {
            proof {
                assert(s@.subrange(k as int, k + sub@.len() as int) =~= sub@);
            }
            return true;
        }
        k += 1;
    }
    proof {
        assert forall|kk: int| 0 <= kk && kk + sub@.len() <= s@.len() implies #[trigger] s@.subrange(
            kk,
            kk + sub@.len() as int,
        ) != sub@ by {
            assert(kk < k);
        }
    }
    false
}

/// A line as the line splitter yields it: a terminating carriage return
/// that preceded the line feed is dropped.
pub open spec fn strip_cr(l: Seq<char>) -> Seq<char> {
    if l.len() > 0 && l.last() == '\r' {
        l.drop_last()
    } else {
        l
    }
}

/// The lines of `s` from position `start`, scanning at position `i`:
/// line feeds end a line, and a final line needs no terminator.
pub open spec fn split_lines_from(s: Seq<char>, start: int, i: int) -> Seq<Seq<char>>
    decreases s.len() - i,
{
    if !(0 <= start <= i <= s.len()) {
        Seq::empty()
    } else if i == s.len() {
        if start < s.len() {
            seq![s.subrange(start, s.len() as int)]
        } else {
            Seq::empty()
        }
    } else if s[i] == '\n' {
        seq![strip_cr(s.subrange(start, i))] + split_lines_from(s, i + 1, i + 1)
    } else {
        split_lines_from(s, start, i + 1)
    }
}

pub open spec fn split_lines_spec(s: Seq<char>) -> Seq<Seq<char>> {
    split_lines_from(s, 0, 0)
}

pub fn split_lines(s: &Vec<char>) -> (r: Vec<Vec<char>>)
    ensures
        r.deep_view() == split_lines_spec(s@),
{
    let mut r: Vec<Vec<char>> = Vec::new();
    let mut start: usize = 0;
    let mut i: usize = 0;
    while i < s.len()
        invariant
            start <= i <= s@.len(),
            split_lines_spec(s@) == r.deep_view() + split_lines_from(s@, start as int, i as int),
        decreases s@.len() - i,
    {
        if s[i] == '\n' {
            let mut line = copy_range(s, start, i);
            if line.len() > 0 && line[line.len() - 1] == '\r' {
                line.pop();
            }
            proof {
                assert(line@ == strip_cr(s@.subrange(start as int, i as int)));
            }
            let ghost old_dv = r.deep_view();
            r.push(line);
            proof {
                assert(r.deep_view() =~~= old_dv.push(line@));
                assert(old_dv + (seq![line@] + split_lines_from(s@, i + 1, i + 1)) =~~= old_dv.push(
                    line@,
                ) + split_lines_from(s@, i + 1, i + 1));
            }
            start = i + 1;
        }
        i += 1;
    }
    if start < s.len() {
        let line = copy_range(s, start, s.len());
        let ghost old_dv = r.deep_view();
        r.push(line);
        proof {
            assert(r.deep_view() =~~= old_dv.push(line@));
            assert(old_dv + seq![line@] =~~= old_dv.push(line@));
            assert(r.deep_view() =~~= split_lines_spec(s@));
        }
    } else {
        proof {
            assert(r.deep_view() + Seq::<Seq<char>>::empty() =~~= r.deep_view());
        }
    }
    r
}

/// Total length of the lines from position `i` on.
pub open spec fn sum_lens_from(ls: Seq<Seq<char>>, i: int) -> nat
    decreases ls.len() - i,
{
    if !(0 <= i < ls.len()) {
        0
    } else {
        ls[i].len() + sum_lens_from(ls, i + 1)
    }
}

pub proof fn lemma_sum_lens_shift(x: Seq<char>, r: Seq<Seq<char>>, i: int)
    requires
        0 <= i <= r.len(),
    ensures
        sum_lens_from(seq![x] + r, i + 1) == sum_lens_from(r, i),
    decreases r.len() - i,
{
    if i < r.len() {
        assert((seq![x] + r)[i + 1] == r[i]);
        lemma_sum_lens_shift(x, r, i + 1);
    }
}

/// The line splitter cannot produce more lines, nor more line characters,
/// than the text it splits.
pub proof fn lemma_split_lines_bounds(s: Seq<char>, start: int, i: int)
    requires
        0 <= start <= i <= s.len(),
    ensures
        split_lines_from(s, start, i).len() <= s.len() - start,
        sum_lens_from(split_lines_from(s, start, i), 0) <= s.len() - start,
    decreases s.len() - i,
{
    if i == s.len() {
        if start < s.len() {
            let l = s.subrange(start, s.len() as int);
            assert(seq![l][0] == l);
            assert(sum_lens_from(seq![l], 1) == 0);
            assert(sum_lens_from(seq![l], 0) == l.len());
        }
    } else if s[i] == '\n' {
        lemma_split_lines_bounds(s, i + 1, i + 1);
        let l0 = strip_cr(s.subrange(start, i));
        let rest = split_lines_from(s, i + 1, i + 1);
        lemma_sum_lens_shift(l0, rest, 0);
        assert((seq![l0] + rest)[0] == l0);
        assert(l0.len() <= i - start);
        assert(sum_lens_from(seq![l0] + rest, 0) == l0.len() + sum_lens_from(rest, 0));
    } else {
        lemma_split_lines_bounds(s, start, i + 1);
    }
}

pub proof fn lemma_count_char_le(s: Seq<char>, c: char, i: int)
    requires
        0 <= i <= s.len(),
    ensures
        count_char_from(s, c, i) <= s.len() - i,
    decreases s.len() - i,
{
    if i < s.len() {
        lemma_count_char_le(s, c, i + 1);
    }
}

/// Each line, indented by four spaces and terminated by a line feed,
/// concatenated from position `i` on.
pub open spec fn cat_indented_from(ls: Seq<Seq<char>>, i: int) -> Seq<char>
    decreases ls.len() - i,
{
    if !(0 <= i < ls.len()) {
        Seq::empty()
    } else {
        "    "@ + ls[i] + "\n"@ + cat_indented_from(ls, i + 1)
    }
}

/// The text reflowed one container level deeper: every line gains one
/// four-space indentation unit and a terminating line feed.
pub open spec fn indent4_spec(s: Seq<char>) -> Seq<char> {
    cat_indented_from(split_lines_spec(s), 0)
}

/// Where the `k`-th line's indented copy begins inside the re-indented
/// text: all earlier lines, each with its four-space prefix and line feed.
pub open spec fn indent_offset(ls: Seq<Seq<char>>, k: int) -> int
    decreases k,
{
    if k <= 0 {
        0
    } else {
        indent_offset(ls, k - 1) + 5 + ls[k - 1].len()
    }
}

proof fn lemma_cat_indented_line_from(ls: Seq<Seq<char>>, j: int, k: int)
    requires
        0 <= j <= k < ls.len(),
    ensures
        ({
            let out = cat_indented_from(ls, j);
            let off = indent_offset(ls, k) - indent_offset(ls, j);
            &&& 0 <= off
            &&& off + 5 + ls[k].len() <= out.len()
            &&& out.subrange(off, off + 4) == "    "@
            &&& out.subrange(off + 4, off + 4 + ls[k].len() as int) == ls[k]
            &&& out[off + 4 + ls[k].len()] == '\n'
        }),
    decreases k - j,
{
    reveal_strlit("    ");
    reveal_strlit("\n");
    let out = cat_indented_from(ls, j);
    let rest = cat_indented_from(ls, j + 1);
    if j == k {
        assert(out.subrange(0, 4) =~= "    "@);
        assert(out.subrange(4, 4 + ls[k].len() as int) =~= ls[k]);
    } else {
        lemma_cat_indented_line_from(ls, j + 1, k);
        let off1 = indent_offset(ls, k) - indent_offset(ls, j + 1);
        let pj = 5 + ls[j].len();
        assert(out.subrange(pj + off1, pj + off1 + 4) =~= rest.subrange(off1, off1 + 4));
        assert(out.subrange(pj + off1 + 4, pj + off1 + 4 + ls[k].len() as int) =~= rest.subrange(
            off1 + 4,
            off1 + 4 + ls[k].len() as int,
        ));
    }
}

/// Each line of a re-indented text stands unmodified inside the result:
/// at its offset the output holds exactly one four-space prefix, then the
/// line itself, then a closing line feed.
pub proof fn lemma_indent4_line(s: Seq<char>, k: int)
    requires
        0 <= k < split_lines_spec(s).len(),
    ensures
        ({
            let ls = split_lines_spec(s);
            let out = indent4_spec(s);
            let off = indent_offset(ls, k);
            &&& 0 <= off
            &&& off + 5 + ls[k].len() <= out.len()
            &&& out.subrange(off, off + 4) == "    "@
            &&& out.subrange(off + 4, off + 4 + ls[k].len() as int) == ls[k]
            &&& out[off + 4 + ls[k].len()] == '\n'
        }),
{
    lemma_cat_indented_line_from(split_lines_spec(s), 0, k);
}

pub fn indent4(text: &Vec<char>) -> (r: Vec<char>)
    ensures
        r@ == indent4_spec(text@),
{
    let lines = split_lines(text);
    let mut r: Vec<char> = Vec::new();
    let mut i: usize = 0;
    while i < lines.len()
        invariant
            i <= lines@.len(),
            lines.deep_view() == split_lines_spec(text@),
            indent4_spec(text@) == r@ + cat_indented_from(lines.deep_view(), i as int),
        decreases lines@.len() - i,
    {
        let ghost r0 = r@;
        push_str(&mut r, "    ");
        push_chars(&mut r, &lines[i]);
        push_str(&mut r, "\n");
        proof {
            assert(lines.deep_view()[i as int] == lines@[i as int]@);
            assert(r0 + ("    "@ + lines.deep_view()[i as int] + "\n"@ + cat_indented_from(
                lines.deep_view(),
                i + 1,
            )) =~= r@ + cat_indented_from(lines.deep_view(), i + 1));
        }
        i += 1;
    }
    proof {
        assert(r@ + Seq::<char>::empty() =~= r@);
    }
    r
}

} // verus!
