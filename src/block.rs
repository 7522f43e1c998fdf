//! The docstring block: building it from license text and dates, and
//! stripping an existing one from a file's content.

use vstd::prelude::*;

use crate::comment::CommentStyle;
use crate::text::{
    chars_of,
    contains,
    find_line_starting,
    find_line_starting_with,
    lemma_find_line_starting_bounds,
    lemma_line_end,
    line_at,
    line_end,
    line_end_at,
};

verus! {

/// A line break.
pub open spec fn newline() -> Seq<char> {
    seq!['\n']
}

/// Each line of `s`, from the line that begins at `i` on, behind the prefix
/// `p` and followed by a line break. Lines are split at `\n`, so text that
/// ends with a line break has a last, empty line.
pub open spec fn prefixed_lines(s: Seq<char>, p: Seq<char>, i: int) -> Seq<char>
    decreases s.len() - i,
{
    if 0 <= i <= s.len() {
        let rest = if line_end(s, i) < s.len() {
            proof {
                lemma_line_end(s, i);
            }
            prefixed_lines(s, p, line_end(s, i) + 1)
        } else {
            Seq::empty()
        };
        p + line_at(s, i) + newline() + rest
    } else {
        Seq::empty()
    }
}

/// The docstring block for `license` in the comment style `st` (opening
/// marker, line prefix, closing marker), with the date the file was created
/// and today's date. The block ends with one blank line, which separates it
/// from the content that follows.
pub open spec fn docstring_block(
    license: Seq<char>,
    st: (Seq<char>, Seq<char>, Seq<char>),
    created: Seq<char>,
    today: Seq<char>,
) -> Seq<char> {
    st.0 + newline() + prefixed_lines(license, st.1, 0) + created_line(st.1, created)
        + updated_line(st.1, today) + st.2 + newline() + newline()
}

/// The line of a block that records when the file was created.
pub open spec fn created_line(prefix: Seq<char>, created: Seq<char>) -> Seq<char> {
    prefix + "File created: "@ + created + newline()
}

/// The line of a block that records when it was last written.
pub open spec fn updated_line(prefix: Seq<char>, today: Seq<char>) -> Seq<char> {
    prefix + "Last updated: "@ + today + newline()
}

/// Where past the closing line that begins at `b` a block ends: after that
/// line's break, and after one blank line that follows it.
pub open spec fn after_block(s: Seq<char>, b: int) -> int {
    let e = line_end(s, b);
    let k = if e < s.len() {
        e + 1
    } else {
        e
    };
    if k < s.len() && s[k] == '\n' {
        k + 1
    } else {
        k
    }
}

/// The span of the first block in `s`: from the start of the first line that
/// starts with the opening marker to the end of the first line after it that
/// starts with the closing marker (see `after_block`). None when either line
/// is missing.
pub open spec fn block_span(s: Seq<char>, st: (Seq<char>, Seq<char>, Seq<char>)) -> Option<
    (int, int),
> {
    match find_line_starting(s, 0, st.0) {
        None => None,
        Some(a) => if line_end(s, a) >= s.len() {
            None
        } else {
            match find_line_starting(s, line_end(s, a) + 1, st.2) {
                None => None,
                Some(b) => Some((a, after_block(s, b))),
            }
        },
    }
}

/// `s` without its first block; `s` itself when it holds no complete block.
pub open spec fn strip_spec(s: Seq<char>, st: (Seq<char>, Seq<char>, Seq<char>)) -> Seq<char> {
    match block_span(s, st) {
        None => s,
        Some((a, b)) => s.subrange(0, a) + s.subrange(b, s.len() as int),
    }
}

/// Whether `s` holds no line break.
pub open spec fn single_line(s: Seq<char>) -> bool {
    forall|k: int| 0 <= k < s.len() ==> s[k] != '\n'
}

/// Whether a line of `s` begins at `k`.
pub open spec fn is_line_start(s: Seq<char>, k: int) -> bool {
    k == 0 || (0 < k <= s.len() && s[k - 1] == '\n')
}

/// Whether each marker of `st` fits on one line.
pub open spec fn single_line_style(st: (Seq<char>, Seq<char>, Seq<char>)) -> bool {
    single_line(st.0) && single_line(st.1) && single_line(st.2)
}

/// The lines of a block between its opening and its closing line: the
/// prefixed license lines and the two date lines, each ending in a line
/// break.
pub open spec fn block_interior(
    license: Seq<char>,
    st: (Seq<char>, Seq<char>, Seq<char>),
    created: Seq<char>,
    today: Seq<char>,
) -> Seq<char> {
    prefixed_lines(license, st.1, 0) + created_line(st.1, created) + updated_line(st.1, today)
}

/// Whether no line of `w`, from the line that begins at `k` on, starts with
/// `p`.
pub open spec fn no_line_starts_with(w: Seq<char>, k: int, p: Seq<char>) -> bool {
    forall|m: int|
        #![trigger line_at(w, m)]
        k <= m < w.len() && is_line_start(w, m) ==> !p.is_prefix_of(line_at(w, m))
}

/// Whether no line inside the block built from these values, between its
/// opening and its closing line, starts with the closing marker.
pub open spec fn interior_lines_clear(
    license: Seq<char>,
    st: (Seq<char>, Seq<char>, Seq<char>),
    created: Seq<char>,
    today: Seq<char>,
) -> bool {
    no_line_starts_with(block_interior(license, st, created, today), 0, st.2)
}

/// A run `w` without line breaks that stands at `i` and is followed by a
/// line break is the line that begins at `i`.
pub proof fn lemma_line_of(s: Seq<char>, i: int, w: Seq<char>)
    requires
        0 <= i,
        i + w.len() < s.len(),
        s.subrange(i, i + w.len()) == w,
        single_line(w),
        s[i + w.len()] == '\n',
    ensures
        line_end(s, i) == i + w.len(),
        line_at(s, i) == w,
    decreases w.len(),
{
    if w.len() > 0 {
        assert(s[i] == s.subrange(i, i + w.len())[0]);
        assert(s.subrange(i + 1, i + 1 + w.drop_first().len()) =~= w.drop_first());
        lemma_line_of(s, i + 1, w.drop_first());
    }
}

/// Scanning for a line that starts with `p` passes over the lines of a run
/// `w` that stands at `j` and ends with a line break, when none of them,
/// from the line that begins at `k` on, starts with `p`.
pub proof fn lemma_pass_lines(s: Seq<char>, j: int, w: Seq<char>, k: int, p: Seq<char>)
    requires
        0 <= j,
        0 <= k < w.len(),
        is_line_start(w, k),
        w[w.len() - 1] == '\n',
        j + w.len() <= s.len(),
        s.subrange(j, j + w.len()) == w,
        no_line_starts_with(w, k, p),
    ensures
        find_line_starting(s, j + k, p) == find_line_starting(s, j + w.len(), p),
    decreases w.len() - k,
{
    lemma_line_end(w, k);
    let e = line_end(w, k);
    if e == w.len() {
        assert(w[w.len() - 1] != '\n');
    }
    let l = line_at(w, k);
    assert(s.subrange(j + k, j + k + l.len()) =~= l);
    assert(s[j + e] == w[e]);
    lemma_line_of(s, j + k, l);
    assert(!p.is_prefix_of(line_at(w, k)));
    if e + 1 < w.len() {
        lemma_pass_lines(s, j, w, e + 1, p);
    }
}

/// A block of any content in the style `st`: an opening line, the lines
/// inside it (empty, or ending with a line break), a closing line and its
/// line break, then one blank line when `blank` holds.
pub open spec fn block_of(
    open: Seq<char>,
    inside: Seq<char>,
    close: Seq<char>,
    blank: bool,
) -> Seq<char> {
    open + newline() + inside + close + newline() + (if blank {
        newline()
    } else {
        Seq::empty()
    })
}

/// Whether `block_of(open, inside, close, blank)` followed by `body` is text
/// that begins with one block in the style `st`: the opening line starts
/// with the opening marker, the closing line with the closing marker, both
/// are single lines, no line inside starts with the closing marker, and a
/// body that begins with a blank line is kept apart by a blank line.
pub open spec fn well_formed_block(
    st: (Seq<char>, Seq<char>, Seq<char>),
    open: Seq<char>,
    inside: Seq<char>,
    close: Seq<char>,
    blank: bool,
    body: Seq<char>,
) -> bool {
    &&& single_line(open)
    &&& st.0.is_prefix_of(open)
    &&& (inside.len() > 0 ==> inside[inside.len() - 1] == '\n')
    &&& no_line_starts_with(inside, 0, st.2)
    &&& single_line(close)
    &&& st.2.is_prefix_of(close)
    &&& (!blank ==> !(body.len() > 0 && body[0] == '\n'))
}

/// Stripping the block off text that begins with a well-formed block gives
/// back exactly the text that followed the block.
pub proof fn lemma_strip_block_of(
    st: (Seq<char>, Seq<char>, Seq<char>),
    open: Seq<char>,
    inside: Seq<char>,
    close: Seq<char>,
    blank: bool,
    body: Seq<char>,
)
    requires
        well_formed_block(st, open, inside, close, blank, body),
    ensures
        strip_spec(block_of(open, inside, close, blank) + body, st) == body,
{
    let d = block_of(open, inside, close, blank);
    let s = d + body;
    let h: int = open.len() as int + 1;
    let m: int = h + inside.len();
    let tail = if blank {
        newline()
    } else {
        Seq::empty()
    };
    assert(d =~= open + newline() + inside + close + newline() + tail);
    assert(d.len() == m + close.len() + 1 + tail.len());
    // the opening line
    assert(s.subrange(0, open.len() as int) =~= open);
    lemma_line_of(s, 0, open);
    assert(find_line_starting(s, 0, st.0) == Some(0int));
    // the lines inside the block
    if inside.len() > 0 {
        assert(s.subrange(h, h + inside.len()) =~= inside);
        lemma_pass_lines(s, h, inside, 0, st.2);
    }
    // the closing line
    assert(s.subrange(m, m + close.len()) =~= close);
    lemma_line_of(s, m, close);
    assert(find_line_starting(s, m, st.2) == Some(m));
    if !blank && body.len() > 0 {
        assert(s[d.len() as int] == body[0]);
    }
    assert(after_block(s, m) == d.len());
    assert(block_span(s, st) == Some((0int, d.len() as int)));
    assert(s.subrange(0, 0) + s.subrange(d.len() as int, s.len() as int) =~= body);
}

/// Stripping the block off text that begins with a freshly built block gives
/// back exactly the text that followed the block, provided the opening and
/// the closing marker each fit on one line and no line inside the block
/// starts with the closing marker.
pub proof fn lemma_strip_after_build(
    license: Seq<char>,
    st: (Seq<char>, Seq<char>, Seq<char>),
    created: Seq<char>,
    today: Seq<char>,
    body: Seq<char>,
)
    requires
        single_line(st.0),
        single_line(st.2),
        interior_lines_clear(license, st, created, today),
    ensures
        strip_spec(docstring_block(license, st, created, today) + body, st) == body,
{
    let w = block_interior(license, st, created, today);
    assert(docstring_block(license, st, created, today) =~= block_of(st.0, w, st.2, true));
    assert(st.0.is_prefix_of(st.0));
    assert(st.2.is_prefix_of(st.2));
    lemma_strip_block_of(st, st.0, w, st.2, true, body);
}

/// Whether no line of `w` contains `label`.
pub open spec fn no_line_contains(w: Seq<char>, label: Seq<char>) -> bool {
    forall|k: int|
        #![trigger line_at(w, k)]
        0 <= k <= w.len() && is_line_start(w, k) ==> !contains(line_at(w, k), label)
}

/// Within text that ends with a line break, a line ends where it ends in
/// the whole.
proof fn lemma_line_end_in_prefix(a: Seq<char>, b: Seq<char>, k: int)
    requires
        0 <= k < a.len(),
        a[a.len() - 1] == '\n',
    ensures
        line_end(a + b, k) == line_end(a, k),
        line_end(a, k) < a.len(),
    decreases a.len() - k,
{
    if a[k] != '\n' {
        lemma_line_end_in_prefix(a, b, k + 1);
    }
}

/// Past text `a`, a line ends where it ends in what follows `a`.
proof fn lemma_line_end_in_suffix(a: Seq<char>, b: Seq<char>, k: int)
    requires
        a.len() <= k <= a.len() + b.len(),
    ensures
        line_end(a + b, k) == a.len() + line_end(b, k - a.len()),
    decreases a.len() + b.len() - k,
{
    if k < a.len() + b.len() && b[k - a.len()] != '\n' {
        lemma_line_end_in_suffix(a, b, k + 1);
    }
}

/// The lines of `a + b`, where `a` is empty or ends with a line break, are
/// the lines of `a` followed by the lines of `b`.
pub proof fn lemma_lines_of_concat(a: Seq<char>, b: Seq<char>)
    requires
        a.len() > 0 ==> a[a.len() - 1] == '\n',
    ensures
        forall|k: int|
            0 <= k < a.len() ==> #[trigger] line_at(a + b, k) == line_at(a, k) && is_line_start(
                a + b,
                k,
            ) == is_line_start(a, k),
        forall|k: int|
            a.len() <= k <= a.len() + b.len() ==> #[trigger] line_at(a + b, k) == line_at(
                b,
                k - a.len(),
            ) && is_line_start(a + b, k) == is_line_start(b, k - a.len()),
{
    assert forall|k: int| 0 <= k < a.len() implies #[trigger] line_at(a + b, k) == line_at(a, k)
        && is_line_start(a + b, k) == is_line_start(a, k) by {
        lemma_line_end_in_prefix(a, b, k);
        lemma_line_end(a, k);
        assert(line_at(a + b, k) =~= line_at(a, k));
    }
    assert forall|k: int| a.len() <= k <= a.len() + b.len() implies #[trigger] line_at(a + b, k)
        == line_at(b, k - a.len()) && is_line_start(a + b, k) == is_line_start(b, k - a.len()) by {
        lemma_line_end_in_suffix(a, b, k);
        lemma_line_end(b, k - a.len());
        assert(line_at(a + b, k) =~= line_at(b, k - a.len()));
    }
}

/// The lines of a single line `w` followed by a line break: `w` itself,
/// then an empty line.
pub proof fn lemma_lines_of_line(w: Seq<char>)
    requires
        single_line(w),
    ensures
        line_at(w + newline(), 0) == w,
        forall|k: int|
            0 < k < w.len() + 1 ==> !#[trigger] is_line_start(w + newline(), k),
{
    let s = w + newline();
    assert(s.subrange(0, w.len() as int) =~= w);
    lemma_line_of(s, 0, w);
    assert forall|k: int| 0 < k < w.len() + 1 implies !#[trigger] is_line_start(s, k) by {
        assert(s[k - 1] == w[k - 1]);
    }
}

/// A run shorter than `label` does not contain it.
proof fn lemma_short_lacks(s: Seq<char>, label: Seq<char>)
    requires
        s.len() < label.len(),
    ensures
        !contains(s, label),
{
}

/// Whether exactly one line of `r` contains `label`, and that line is `line`.
pub open spec fn only_line_with(r: Seq<char>, label: Seq<char>, line: Seq<char>) -> bool {
    exists|u: int|
        {
            &&& 0 <= u <= r.len()
            &&& is_line_start(r, u)
            &&& #[trigger] line_at(r, u) == line
            &&& forall|k: int|
                0 <= k <= r.len() && is_line_start(r, k) ==> (contains(
                    #[trigger] line_at(r, k),
                    label,
                ) <==> k == u)
        }
}

/// In a freshly built block followed by `body`, exactly one line contains
/// `Last updated: `, and it is the block's line for the date of the update,
/// provided that date is a single line, the markers are single lines
/// shorter than that label, and no line of the license, of the created-date
/// line or of `body` contains it.
pub proof fn lemma_one_update_line(
    license: Seq<char>,
    st: (Seq<char>, Seq<char>, Seq<char>),
    created: Seq<char>,
    today: Seq<char>,
    body: Seq<char>,
)
    requires
        single_line_style(st),
        st.0.len() < 14,
        st.2.len() < 14,
        single_line(today),
        no_line_contains(
            prefixed_lines(license, st.1, 0) + created_line(st.1, created),
            "Last updated: "@,
        ),
        no_line_contains(body, "Last updated: "@),
    ensures
        only_line_with(
            docstring_block(license, st, created, today) + body,
            "Last updated: "@,
            st.1 + "Last updated: "@ + today,
        ),
{
    let label = "Last updated: "@;
    reveal_strlit("Last updated: ");
    let head = st.0 + newline();
    let p = prefixed_lines(license, st.1, 0) + created_line(st.1, created);
    let ul = st.1 + label + today;
    let up = ul + newline();
    let cl = st.2 + newline();
    let nb = newline() + body;
    let z = cl + nb;
    let r = docstring_block(license, st, created, today) + body;
    let a = head + p;
    let rest = up + z;
    let u = st.0.len() as int + 1 + p.len();
    assert(r =~= a + rest);
    assert(single_line(ul));
    assert(p[p.len() - 1] == '\n');
    assert(a[a.len() - 1] == '\n');
    lemma_lines_of_concat(a, rest);
    lemma_lines_of_concat(head, p);
    lemma_lines_of_concat(up, z);
    lemma_lines_of_concat(cl, nb);
    lemma_lines_of_concat(newline(), body);
    lemma_lines_of_line(st.0);
    lemma_lines_of_line(ul);
    lemma_lines_of_line(st.2);
    lemma_short_lacks(st.0, label);
    lemma_short_lacks(st.2, label);
    assert(ul.subrange(st.1.len() as int, st.1.len() as int + label.len()) =~= label);
    assert(contains(ul, label));
    assert(line_at(newline(), 0) =~= Seq::<char>::empty());
    assert(!contains(Seq::<char>::empty(), label));
    assert(line_at(r, u) == line_at(rest, 0));
    assert(line_at(rest, 0) == line_at(up, 0));
    assert(is_line_start(r, u) == is_line_start(rest, 0));
    assert forall|k: int|
        0 <= k <= r.len() && is_line_start(r, k) implies (contains(
        #[trigger] line_at(r, k),
        label,
    ) <==> k == u) by {
        if k < head.len() {
            assert(line_at(r, k) == line_at(a, k));
            assert(is_line_start(r, k) == is_line_start(a, k));
            assert(line_at(a, k) == line_at(head, k));
            assert(is_line_start(a, k) == is_line_start(head, k));
            assert(k == 0);
        } else if k < a.len() {
            let j = k - head.len();
            assert(line_at(r, k) == line_at(a, k));
            assert(is_line_start(r, k) == is_line_start(a, k));
            assert(line_at(a, k) == line_at(p, j));
            assert(is_line_start(a, k) == is_line_start(p, j));
            assert(!contains(line_at(p, j), label));
        } else {
            let j = k - a.len();
            assert(line_at(r, k) == line_at(rest, j));
            assert(is_line_start(r, k) == is_line_start(rest, j));
            if j < up.len() {
                assert(line_at(rest, j) == line_at(up, j));
                assert(is_line_start(rest, j) == is_line_start(up, j));
                assert(j == 0);
            } else {
                let k2 = j - up.len();
                assert(line_at(rest, j) == line_at(z, k2));
                assert(is_line_start(rest, j) == is_line_start(z, k2));
                if k2 < cl.len() {
                    assert(line_at(z, k2) == line_at(cl, k2));
                    assert(is_line_start(z, k2) == is_line_start(cl, k2));
                    assert(k2 == 0);
                } else {
                    let j2 = k2 - cl.len();
                    assert(line_at(z, k2) == line_at(nb, j2));
                    assert(is_line_start(z, k2) == is_line_start(nb, j2));
                    if j2 == 0 {
                        assert(line_at(nb, 0) == line_at(newline(), 0));
                    } else {
                        assert(line_at(nb, j2) == line_at(body, j2 - 1));
                        assert(is_line_start(nb, j2) == is_line_start(body, j2 - 1));
                        assert(!contains(line_at(body, j2 - 1), label));
                    }
                }
            }
        }
    }
    assert(0 <= u <= r.len());
    assert(is_line_start(r, u));
    assert(line_at(r, u) == ul);
}

/// The docstring block for `license` in `style`, with the given dates.
pub fn build(license: &str, style: &CommentStyle, created: &str, today: &str) -> (r: String)
    ensures
        r@ == docstring_block(license@, style@, created@, today@),
{
    let prefix = style.normal();
    let mut r = style.start().to_owned();
    r.append("\n");
    proof {
        reveal_strlit("\n");
    }
    let ghost head = r@;
    let v = chars_of(license);
    let n = v.len();
    let mut i: usize = 0;
    loop
        invariant_except_break
            r@ + prefixed_lines(v@, prefix@, i as int) == head + prefixed_lines(
                v@,
                prefix@,
                0,
            ),
        invariant
            v@ == license@,
            n == v.len(),
            i <= n,
            prefix@ == style@.1,
        ensures
            r@ == head + prefixed_lines(v@, prefix@, 0),
        decreases n - i,
    {
        let e = line_end_at(&v, i);
        proof {
            lemma_line_end(v@, i as int);
        }
        let ghost before = r@;
        proof {
            reveal_strlit("\n");
        }
        r.append(prefix);
        r.append(license.substring_char(i, e));
        r.append("\n");
        assert(r@ =~= before + prefix@ + line_at(v@, i as int) + newline());
        assert(prefixed_lines(v@, prefix@, i as int) == prefix@ + line_at(v@, i as int) + newline()
            + (if e < n {
            prefixed_lines(v@, prefix@, e + 1)
        } else {
            Seq::empty()
        }));
        if e >= n {
            assert(r@ =~= before + prefixed_lines(v@, prefix@, i as int));
            break ;
        }
        assert(before + prefixed_lines(v@, prefix@, i as int) =~= r@ + prefixed_lines(
            v@,
            prefix@,
            e + 1,
        ));
        i = e + 1;
    }
    r.append(prefix);
    r.append("File created: ");
    r.append(created);
    r.append("\n");
    r.append(prefix);
    r.append("Last updated: ");
    r.append(today);
    r.append("\n");
    r.append(style.end());
    r.append("\n");
    r.append("\n");
    assert(r@ =~= docstring_block(license@, style@, created@, today@));
    r
}

/// `content` without its first docstring block in `style`: from the first
/// line that starts with the opening marker through the first later line
/// that starts with the closing marker, and one blank line after it.
/// `content` comes back unchanged when it holds no complete block.
pub fn strip_block(content: &str, style: &CommentStyle) -> (r: String)
    ensures
        r@ == strip_spec(content@, style@),
{
    let v = chars_of(content);
    let n = v.len();
    let start = chars_of(style.start());
    let end = chars_of(style.end());
    match find_line_starting_with(&v, 0, &start) {
        None => content.to_owned(),
        Some(a) => {
            proof {
                lemma_find_line_starting_bounds(v@, 0, start@);
                lemma_line_end(v@, a as int);
            }
            let e0 = line_end_at(&v, a);
            if e0 >= n {
                return content.to_owned();
            }
            match find_line_starting_with(&v, e0 + 1, &end) {
                None => content.to_owned(),
                Some(b) => {
                    proof {
                        lemma_find_line_starting_bounds(v@, e0 + 1, end@);
                        lemma_line_end(v@, b as int);
                    }
                    let e = line_end_at(&v, b);
                    let mut k = if e < n {
                        e + 1
                    } else {
                        e
                    };
                    if k < n && v[k] == '\n' {
                        k = k + 1;
                    }
                    let mut r = content.substring_char(0, a).to_owned();
                    r.append(content.substring_char(k, n));
                    r
                },
            }
        },
    }
}

} // verus!
