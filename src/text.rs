//! Lines and columns of a character sequence, split on `'\n'`.
use vstd::prelude::*;

verus! {

/// Offset at which the line holding offset `k` begins: just after the last
/// `'\n'` before `k`, or 0.
pub open spec fn line_start(s: Seq<char>, k: int) -> int
    decreases k,
{
    if k <= 0 {
        0
    } else if s[k - 1] == '\n' {
        k
    } else {
        line_start(s, k - 1)
    }
}

/// Offset at which the line holding offset `k` ends: the first `'\n'` at or
/// after `k`, or the end of the text.
pub open spec fn line_end(s: Seq<char>, k: int) -> int
    decreases s.len() - k,
{
    if k >= s.len() {
        s.len() as int
    } else if s[k] == '\n' {
        k
    } else {
        line_end(s, k + 1)
    }
}

/// Row of offset `k`: the number of `'\n'` before it.
pub open spec fn row_of(s: Seq<char>, k: int) -> int
    decreases k,
{
    if k <= 0 {
        0
    } else if s[k - 1] == '\n' {
        row_of(s, k - 1) + 1
    } else {
        row_of(s, k - 1)
    }
}

/// Column of offset `k`: its distance from the start of its line.
pub open spec fn col_of(s: Seq<char>, k: int) -> int {
    k - line_start(s, k)
}

/// The lines of `s`, split on `'\n'`; a text with `n` separators has `n + 1`
/// lines, and the empty text has one empty line.
pub open spec fn lines_of(s: Seq<char>) -> Seq<Seq<char>>
    decreases s.len(),
{
    if s.len() == 0 {
        seq![Seq::<char>::empty()]
    } else {
        let prev = lines_of(s.drop_last());
        if s.last() == '\n' {
            prev.push(Seq::<char>::empty())
        } else {
            prev.update(prev.len() - 1, prev.last().push(s.last()))
        }
    }
}

/// Where an offset lies depends only on the text before it.
pub proof fn lemma_prefix_locates(s: Seq<char>, t: Seq<char>, k: int)
    requires
        0 <= k <= s.len(),
        k <= t.len(),
        forall|j: int| 0 <= j < k ==> s[j] == t[j],
    ensures
        row_of(s, k) == row_of(t, k),
        line_start(s, k) == line_start(t, k),
    decreases k,
{
    if k > 0 {
        lemma_prefix_locates(s, t, k - 1);
    }
}

pub proof fn lemma_line_start(s: Seq<char>, k: int)
    requires
        0 <= k <= s.len(),
    ensures
        0 <= line_start(s, k) <= k,
        line_start(s, k) > 0 ==> s[line_start(s, k) - 1] == '\n',
        forall|j: int| line_start(s, k) <= j < k ==> s[j] != '\n',
    decreases k,
{
    if k > 0 && s[k - 1] != '\n' {
        lemma_line_start(s, k - 1);
    }
}

pub proof fn lemma_line_end(s: Seq<char>, k: int)
    requires
        0 <= k <= s.len(),
    ensures
        k <= line_end(s, k) <= s.len(),
        line_end(s, k) < s.len() ==> s[line_end(s, k)] == '\n',
        forall|j: int| k <= j < line_end(s, k) ==> s[j] != '\n',
    decreases s.len() - k,
{
    if k < s.len() && s[k] != '\n' {
        lemma_line_end(s, k + 1);
    }
}

/// Offsets joined by no `'\n'` lie on one line.
pub proof fn lemma_same_line(s: Seq<char>, a: int, b: int)
    requires
        0 <= a <= b <= s.len(),
        forall|j: int| a <= j < b ==> s[j] != '\n',
    ensures
        line_start(s, b) == line_start(s, a),
        line_end(s, a) == line_end(s, b),
    decreases b - a,
{
    if a < b {
        lemma_same_line(s, a, b - 1);
    }
}

/// The first row is the one that starts at offset 0.
pub proof fn lemma_row_zero(s: Seq<char>, k: int)
    requires
        0 <= k <= s.len(),
    ensures
        (row_of(s, k) == 0) == (line_start(s, k) == 0),
        row_of(s, k) >= 0,
    decreases k,
{
    if k > 0 {
        lemma_row_zero(s, k - 1);
    }
}

/// Finds the start of the line that holds offset `k`.
pub fn find_line_start(s: &Vec<char>, k: usize) -> (r: usize)
    requires
        k <= s@.len(),
    ensures
        r == line_start(s@, k as int),
        r <= k,
{
    let mut i: usize = k;
    while i > 0 && s[i - 1] != '\n'
        invariant
            i <= k <= s@.len(),
            line_start(s@, i as int) == line_start(s@, k as int),
        decreases i,
    {
        i -= 1;
    }
    i
}

/// Finds the end of the line that holds offset `k`.
pub fn find_line_end(s: &Vec<char>, k: usize) -> (r: usize)
    requires
        k <= s@.len(),
    ensures
        r == line_end(s@, k as int),
        k <= r <= s@.len(),
{
    let mut i: usize = k;
    while i < s.len() && s[i] != '\n'
        invariant
            k <= i <= s@.len(),
            line_end(s@, i as int) == line_end(s@, k as int),
        decreases s@.len() - i,
    {
        i += 1;
    }
    i
}

/// The characters of `s`, one by one.
pub fn chars_of(s: &str) -> (r: Vec<char>)
    ensures
        r@ == s@,
{
    let n = s.unicode_len();
    let mut r: Vec<char> = Vec::new();
    let mut i: usize = 0;
    while i < n
        invariant
            n == s@.len(),
            i <= n,
            r@ == s@.subrange(0, i as int),
        decreases n - i,
    {
        r.push(s.get_char(i));
        i += 1;
        assert(r@ =~= s@.subrange(0, i as int));
    }
    assert(r@ =~= s@);
    r
}

/// A copy of `s[a..b]`.
pub fn copy_range(s: &Vec<char>, a: usize, b: usize) -> (r: Vec<char>)
    requires
        a <= b <= s@.len(),
    ensures
        r@ == s@.subrange(a as int, b as int),
{
    let mut r: Vec<char> = Vec::new();
    let mut i: usize = a;
    while i < b
        invariant
            a <= i <= b <= s@.len(),
            r@ == s@.subrange(a as int, i as int),
        decreases b - i,
    {
        r.push(s[i]);
        i += 1;
        assert(r@ =~= s@.subrange(a as int, i as int));
    }
    r
}

} // verus!
