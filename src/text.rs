//! Character-level views of strings: copying a string into characters,
//! comparing, and locating lines.

use vstd::prelude::*;

verus! {

broadcast use vstd::string::group_string_axioms;

/// The characters of `s`, in order.
pub fn chars_of(s: &str) -> (r: Vec<char>)
    ensures
        r@ == s@,
{
    let mut r: Vec<char> = Vec::new();
    for c in it: s.chars()
        invariant
            r@ == it.seq().take(it.index() as int),
            it.seq() == s@,
    {
        r.push(c);
    }
    r
}

/// Index of the first line break at or after `i`, or the length of `s`
/// when none follows: the end of the line that holds position `i`.
pub open spec fn line_end(s: Seq<char>, i: int) -> int
    decreases s.len() - i,
{
    if i >= s.len() {
        s.len() as int
    } else if s[i] == '\n' {
        i
    } else {
        line_end(s, i + 1)
    }
}

/// The text of the line that begins at `i`, without its line break.
pub open spec fn line_at(s: Seq<char>, i: int) -> Seq<char> {
    s.subrange(i, line_end(s, i))
}

/// Whether `w` occurs in `s` as a contiguous run.
pub open spec fn contains(s: Seq<char>, w: Seq<char>) -> bool {
    exists|k: int| 0 <= k && k + w.len() <= s.len() && #[trigger] s.subrange(k, k + w.len()) == w
}

/// The start of the first line, from the line that begins at `i` on, whose
/// text starts with `p`.
pub open spec fn find_line_starting(s: Seq<char>, i: int, p: Seq<char>) -> Option<int>
    decreases s.len() - i,
{
    if 0 <= i <= s.len() {
        if p.is_prefix_of(line_at(s, i)) {
            Some(i)
        } else if line_end(s, i) >= s.len() {
            None
        } else {
            proof {
                lemma_line_end(s, i);
            }
            find_line_starting(s, line_end(s, i) + 1, p)
        }
    } else {
        None
    }
}

/// The start of the first line, from the line that begins at `i` on, whose
/// text contains `w`.
pub open spec fn find_line_containing(s: Seq<char>, i: int, w: Seq<char>) -> Option<int>
    decreases s.len() - i,
{
    if 0 <= i <= s.len() {
        if contains(line_at(s, i), w) {
            Some(i)
        } else if line_end(s, i) >= s.len() {
            None
        } else {
            proof {
                lemma_line_end(s, i);
            }
            find_line_containing(s, line_end(s, i) + 1, w)
        }
    } else {
        None
    }
}

/// A line ends at a line break or at the end of the text, and holds no
/// line break before that.
pub proof fn lemma_line_end(s: Seq<char>, i: int)
    requires
        0 <= i <= s.len(),
    ensures
        i <= line_end(s, i) <= s.len(),
        line_end(s, i) < s.len() ==> s[line_end(s, i)] == '\n',
        forall|k: int| i <= k < line_end(s, i) ==> s[k] != '\n',
    decreases s.len() - i,
{
    if i < s.len() && s[i] != '\n' {
        lemma_line_end(s, i + 1);
    }
}

/// A line found from the line that begins at `i` on lies at or after `i`.
pub proof fn lemma_find_line_starting_bounds(s: Seq<char>, i: int, p: Seq<char>)
    requires
        0 <= i <= s.len(),
    ensures
        find_line_starting(s, i, p) matches Some(k) ==> i <= k <= s.len(),
    decreases s.len() - i,
{
    lemma_line_end(s, i);
    if !p.is_prefix_of(line_at(s, i)) && line_end(s, i) < s.len() {
        lemma_find_line_starting_bounds(s, line_end(s, i) + 1, p);
    }
}

/// A line found from the line that begins at `i` on lies at or after `i`.
pub proof fn lemma_find_line_containing_bounds(s: Seq<char>, i: int, w: Seq<char>)
    requires
        0 <= i <= s.len(),
    ensures
        find_line_containing(s, i, w) matches Some(k) ==> i <= k <= s.len(),
    decreases s.len() - i,
{
    lemma_line_end(s, i);
    if !contains(line_at(s, i), w) && line_end(s, i) < s.len() {
        lemma_find_line_containing_bounds(s, line_end(s, i) + 1, w);
    }
}

/// The end of the line that holds position `i`.
pub fn line_end_at(v: &Vec<char>, i: usize) -> (r: usize)
    requires
        i <= v.len(),
    ensures
        r == line_end(v@, i as int),
{
    let mut k = i;
    while k < v.len() && v[k] != '\n'
        invariant
            i <= k <= v.len(),
            line_end(v@, k as int) == line_end(v@, i as int),
        decreases v.len() - k,
    {
        k = k + 1;
    }
    k
}

/// Whether the characters of `v` from `i` to `e` start with `p`.
pub fn starts_with_at(v: &Vec<char>, i: usize, e: usize, p: &Vec<char>) -> (r: bool)
    requires
        i <= e <= v.len(),
    ensures
        r == p@.is_prefix_of(v@.subrange(i as int, e as int)),
{
    if p.len() > e - i {
        return false;
    }
    let mut k: usize = 0;
    while k < p.len()
        invariant
            i <= e <= v.len(),
            p.len() <= e - i,
            k <= p.len(),
            forall|j: int| 0 <= j < k ==> p@[j] == v@[i + j],
        decreases p.len() - k,
    {
        if p[k] != v[i + k] {
            assert(p@[k as int] != v@.subrange(i as int, e as int)[k as int]);
            return false;
        }
        k = k + 1;
    }
    assert(p@ =~= v@.subrange(i as int, e as int).subrange(0, p@.len() as int));
    true
}

/// Whether `w` occurs among the characters of `v` from `i` to `e`.
pub fn contains_at(v: &Vec<char>, i: usize, e: usize, w: &Vec<char>) -> (r: bool)
    requires
        i <= e <= v.len(),
    ensures
        r == contains(v@.subrange(i as int, e as int), w@),
{
    let ghost t = v@.subrange(i as int, e as int);
    if w.len() > e - i {
        return false;
    }
    let mut k: usize = i;
    while k <= e - w.len()
        invariant
            i <= e <= v.len(),
            w.len() <= e - i,
            i <= k <= e - w.len() + 1,
            t == v@.subrange(i as int, e as int),
            forall|j: int| 0 <= j < k - i ==> #[trigger] t.subrange(j, j + w.len()) != w@,
        decreases e - k,
    {
        if starts_with_at(v, k, e, w) {
            assert(t.subrange(k - i, k - i + w.len()) =~= w@);
            return true;
        }
        assert(t.subrange(k - i, k - i + w.len()) =~= v@.subrange(k as int, e as int).subrange(
            0,
            w@.len() as int,
        ));
        k = k + 1;
    }
    false
}

/// The start of the first line, from the line that begins at `from` on,
/// whose text starts with `p`.
pub fn find_line_starting_with(v: &Vec<char>, from: usize, p: &Vec<char>) -> (r: Option<usize>)
    requires
        from <= v.len(),
    ensures
        match r {
            Some(k) => find_line_starting(v@, from as int, p@) == Some(k as int),
            None => find_line_starting(v@, from as int, p@) is None,
        },
{
    let mut i = from;
    loop
        invariant
            from <= i <= v.len(),
            find_line_starting(v@, i as int, p@) == find_line_starting(v@, from as int, p@),
        decreases v.len() - i,
    {
        let e = line_end_at(v, i);
        proof {
            lemma_line_end(v@, i as int);
        }
        if starts_with_at(v, i, e, p) {
            return Some(i);
        }
        if e >= v.len() {
            return None;
        }
        i = e + 1;
    }
}

/// The start of the first line, from the line that begins at `from` on,
/// whose text contains `w`.
pub fn find_line_containing_in(v: &Vec<char>, from: usize, w: &Vec<char>) -> (r: Option<usize>)
    requires
        from <= v.len(),
    ensures
        match r {
            Some(k) => find_line_containing(v@, from as int, w@) == Some(k as int),
            None => find_line_containing(v@, from as int, w@) is None,
        },
{
    let mut i = from;
    loop
        invariant
            from <= i <= v.len(),
            find_line_containing(v@, i as int, w@) == find_line_containing(v@, from as int, w@),
        decreases v.len() - i,
    {
        let e = line_end_at(v, i);
        proof {
            lemma_line_end(v@, i as int);
        }
        if contains_at(v, i, e, w) {
            return Some(i);
        }
        if e >= v.len() {
            return None;
        }
        i = e + 1;
    }
}

/// Whether `a` and `b` hold the same characters.
pub fn chars_equal(a: &Vec<char>, b: &Vec<char>) -> (r: bool)
    ensures
        r == (a@ == b@),
{
    if a.len() != b.len() {
        return false;
    }
    let mut k: usize = 0;
    while k < a.len()
        invariant
            a.len() == b.len(),
            k <= a.len(),
            forall|j: int| 0 <= j < k ==> a@[j] == b@[j],
        decreases a.len() - k,
    {
        if a[k] != b[k] {
            return false;
        }
        k = k + 1;
    }
    assert(a@ =~= b@);
    true
}

} // verus!
