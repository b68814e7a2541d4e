//! Character-level scanning helpers shared by the diagram parser.
//!
//! The specification side models text as `Seq<char>` and defines trimming,
//! line splitting and token extraction as recursive functions; the exec side
//! provides index-based scanners whose results are tied back to those
//! definitions by the lemmas below.

use vstd::prelude::*;

verus! {

/// The whitespace characters recognized by the scanners.
pub open spec fn is_ws(c: char) -> bool {
    c == ' ' || c == '\t' || c == '\n' || c == '\r' || c == '\u{0b}' || c == '\u{0c}'
}

/// Executable mirror of `is_ws`.
pub fn is_ws_char(c: char) -> (r: bool)
    ensures
        r == is_ws(c),
{
    c == ' ' || c == '\t' || c == '\n' || c == '\r' || c == '\u{0b}' || c == '\u{0c}'
}

/// `s` with its leading whitespace removed.
pub open spec fn trim_start_spec(s: Seq<char>) -> Seq<char>
    decreases s.len(),
{
    if s.len() > 0 && is_ws(s[0]) {
        trim_start_spec(s.skip(1))
    } else {
        s
    }
}

/// `s` with its trailing whitespace removed.
pub open spec fn trim_end_spec(s: Seq<char>) -> Seq<char>
    decreases s.len(),
{
    if s.len() > 0 && is_ws(s.last()) {
        trim_end_spec(s.drop_last())
    } else {
        s
    }
}

/// `s` with whitespace removed from both ends.
pub open spec fn trim_spec(s: Seq<char>) -> Seq<char> {
    trim_end_spec(trim_start_spec(s))
}

/// Index of the first newline in `s`, or `s.len()` if there is none.
pub open spec fn find_nl(s: Seq<char>) -> int
    decreases s.len(),
{
    if s.len() == 0 {
        0
    } else if s[0] == '\n' {
        0
    } else {
        1 + find_nl(s.skip(1))
    }
}

/// A line with its terminator's optional carriage return removed.
pub open spec fn strip_cr(l: Seq<char>) -> Seq<char> {
    if l.len() > 0 && l.last() == '\r' {
        l.drop_last()
    } else {
        l
    }
}

/// The lines of `s`, split as `str::lines` splits them: terminators are
/// `\n` or `\r\n`, and a final segment without a terminator is kept.
pub open spec fn lines_spec(s: Seq<char>) -> Seq<Seq<char>>
    decreases s.len(),
{
    if s.len() == 0 {
        Seq::empty()
    } else {
        let i = find_nl(s);
        if 0 <= i < s.len() {
            seq![strip_cr(s.take(i))] + lines_spec(s.skip(i + 1))
        } else {
            seq![s]
        }
    }
}

/// `find_nl` always lands inside `s` or just past its end.
pub proof fn lemma_find_nl_bounds(s: Seq<char>)
    ensures
        0 <= find_nl(s) <= s.len(),
        find_nl(s) < s.len() ==> s[find_nl(s)] == '\n',
        forall|j: int| 0 <= j < find_nl(s) ==> s[j] != '\n',
    decreases s.len(),
{
    if s.len() > 0 && s[0] != '\n' {
        lemma_find_nl_bounds(s.skip(1));
        assert forall|j: int| 0 <= j < find_nl(s) implies s[j] != '\n' by {
            if j > 0 {
                assert(s.skip(1)[j - 1] == s[j]);
            }
        }
    }
}

/// The concatenation of `"\n" + line` over all of `ls`, the shape in which
/// the header parser re-joins the lines after the header block.
pub open spec fn join_lines(ls: Seq<Seq<char>>) -> Seq<char>
    decreases ls.len(),
{
    if ls.len() == 0 {
        Seq::empty()
    } else {
        seq!['\n'] + ls[0] + join_lines(ls.skip(1))
    }
}

/// Index of the first whitespace character in `s`, or `s.len()`.
pub open spec fn find_ws(s: Seq<char>) -> int
    decreases s.len(),
{
    if s.len() == 0 {
        0
    } else if is_ws(s[0]) {
        0
    } else {
        1 + find_ws(s.skip(1))
    }
}

/// The first whitespace-delimited token of `s`; empty if there is none.
pub open spec fn first_token(s: Seq<char>) -> Seq<char> {
    let t = trim_start_spec(s);
    t.take(find_ws(t))
}

/// A positional characterization pins down `find_nl`.
pub proof fn lemma_find_nl(s: Seq<char>, i: int)
    requires
        0 <= i <= s.len(),
        forall|j: int| 0 <= j < i ==> s[j] != '\n',
        i == s.len() || s[i] == '\n',
    ensures
        find_nl(s) == i,
    decreases i,
{
    if i > 0 {
        lemma_find_nl(s.skip(1), i - 1);
    }
}

/// A positional characterization pins down `find_ws`.
pub proof fn lemma_find_ws(s: Seq<char>, i: int)
    requires
        0 <= i <= s.len(),
        forall|j: int| 0 <= j < i ==> !is_ws(s[j]),
        i == s.len() || is_ws(s[i]),
    ensures
        find_ws(s) == i,
    decreases i,
{
    if i > 0 {
        lemma_find_ws(s.skip(1), i - 1);
    }
}

/// A positional characterization pins down `trim_start_spec`.
pub proof fn lemma_trim_start(s: Seq<char>, k: int)
    requires
        0 <= k <= s.len(),
        forall|j: int| 0 <= j < k ==> is_ws(s[j]),
        k == s.len() || !is_ws(s[k]),
    ensures
        trim_start_spec(s) == s.skip(k),
    decreases k,
{
    if k > 0 {
        lemma_trim_start(s.skip(1), k - 1);
        assert(s.skip(1).skip(k - 1) =~= s.skip(k));
    } else {
        assert(s.skip(0) =~= s);
    }
}

/// A positional characterization pins down `trim_end_spec`.
pub proof fn lemma_trim_end(s: Seq<char>, k: int)
    requires
        0 <= k <= s.len(),
        forall|j: int| k <= j < s.len() ==> is_ws(s[j]),
        k == 0 || !is_ws(s[k - 1]),
    ensures
        trim_end_spec(s) == s.take(k),
    decreases s.len(),
{
    if s.len() > 0 && is_ws(s.last()) {
        lemma_trim_end(s.drop_last(), k);
        assert(s.drop_last().take(k) =~= s.take(k));
    } else {
        assert(s.take(s.len() as int) =~= s);
    }
}

/// The trailing run of non-whitespace characters of `s`.
pub open spec fn tok_end(s: Seq<char>) -> Seq<char>
    decreases s.len(),
{
    if s.len() == 0 {
        Seq::empty()
    } else if is_ws(s.last()) {
        Seq::empty()
    } else {
        tok_end(s.drop_last()) + seq![s.last()]
    }
}

/// A positional characterization pins down `tok_end`.
pub proof fn lemma_tok_end(s: Seq<char>, a: int)
    requires
        0 <= a <= s.len(),
        forall|j: int| a <= j < s.len() ==> !is_ws(s[j]),
        a == 0 || is_ws(s[a - 1]),
    ensures
        tok_end(s) == s.skip(a),
    decreases s.len(),
{
    if a < s.len() {
        lemma_tok_end(s.drop_last(), a);
        assert(s.drop_last().skip(a) =~= s.skip(a).drop_last());
        assert(tok_end(s) =~= s.skip(a).drop_last() + seq![s.last()]);
        assert(s.skip(a).drop_last() + seq![s.last()] =~= s.skip(a));
    } else {
        assert(s.skip(a) =~= Seq::<char>::empty());
    }
}

/// Character-by-character string equality; `==` on `&str` carries no
/// specification, so the comparison is spelled out.
pub fn str_eq(a: &str, b: &str) -> (r: bool)
    ensures
        r == (a@ == b@),
{
    let an = a.unicode_len();
    let bn = b.unicode_len();
    if an != bn {
        assert(a@ != b@);
        return false;
    }
    let mut i: usize = 0;
    while i < an
        invariant
            i <= an,
            an == a@.len(),
            an == b@.len(),
            forall|j: int| 0 <= j < i ==> a@[j] == b@[j],
        decreases an - i,
    {
        if a.get_char(i) != b.get_char(i) {
            return false;
        }
        i = i + 1;
    }
    assert(a@ =~= b@);
    true
}

/// First index at or after `from` holding a non-whitespace character, or
/// `s`'s length if the rest of `s` is whitespace.
pub fn skip_ws_from(s: &str, n: usize, from: usize) -> (r: usize)
    requires
        n == s@.len(),
        from <= n,
    ensures
        from <= r <= n,
        forall|j: int| from <= j < r ==> is_ws(s@[j]),
        r < n ==> !is_ws(s@[r as int]),
{
    let mut i: usize = from;
    while i < n
        invariant
            from <= i <= n,
            n == s@.len(),
            forall|j: int| from <= j < i ==> is_ws(s@[j]),
        decreases n - i,
    {
        if !is_ws_char(s.get_char(i)) {
            return i;
        }
        i = i + 1;
    }
    i
}

/// First index at or after `from` holding a whitespace character, or `n`.
pub fn find_ws_from(s: &str, n: usize, from: usize) -> (r: usize)
    requires
        n == s@.len(),
        from <= n,
    ensures
        from <= r <= n,
        forall|j: int| from <= j < r ==> !is_ws(s@[j]),
        r < n ==> is_ws(s@[r as int]),
{
    let mut i: usize = from;
    while i < n
        invariant
            from <= i <= n,
            n == s@.len(),
            forall|j: int| from <= j < i ==> !is_ws(s@[j]),
        decreases n - i,
    {
        if is_ws_char(s.get_char(i)) {
            return i;
        }
        i = i + 1;
    }
    i
}

/// First index at or after `from` holding a newline, or `n`.
pub fn find_nl_from(s: &str, n: usize, from: usize) -> (r: usize)
    requires
        n == s@.len(),
        from <= n,
    ensures
        from <= r <= n,
        forall|j: int| from <= j < r ==> s@[j] != '\n',
        r < n ==> s@[r as int] == '\n',
{
    let mut i: usize = from;
    while i < n
        invariant
            from <= i <= n,
            n == s@.len(),
            forall|j: int| from <= j < i ==> s@[j] != '\n',
        decreases n - i,
    {
        if s.get_char(i) == '\n' {
            return i;
        }
        i = i + 1;
    }
    i
}

/// Largest index `b` in `[from, to]` such that everything in `[b, to)` is
/// whitespace and `b` is either `from` or preceded by non-whitespace.
pub fn rskip_ws_from(s: &str, from: usize, to: usize) -> (r: usize)
    requires
        to <= s@.len(),
        from <= to,
    ensures
        from <= r <= to,
        forall|j: int| r <= j < to ==> is_ws(s@[j]),
        r > from ==> !is_ws(s@[r - 1]),
{
    let mut i: usize = to;
    while i > from
        invariant
            from <= i <= to,
            to <= s@.len(),
            forall|j: int| i <= j < to ==> is_ws(s@[j]),
        decreases i,
    {
        if !is_ws_char(s.get_char(i - 1)) {
            return i;
        }
        i = i - 1;
    }
    i
}

/// Smallest index `a` in `[from, to]` such that everything in `[a, to)` is
/// non-whitespace and `a` is either `from` or preceded by whitespace.
pub fn rskip_nonws_from(s: &str, from: usize, to: usize) -> (r: usize)
    requires
        to <= s@.len(),
        from <= to,
    ensures
        from <= r <= to,
        forall|j: int| r <= j < to ==> !is_ws(s@[j]),
        r > from ==> is_ws(s@[r - 1]),
{
    let mut i: usize = to;
    while i > from
        invariant
            from <= i <= to,
            to <= s@.len(),
            forall|j: int| i <= j < to ==> !is_ws(s@[j]),
        decreases i,
    {
        if is_ws_char(s.get_char(i - 1)) {
            return i;
        }
        i = i - 1;
    }
    i
}

/// Scans the line starting at `p`: returns the index of its terminating
/// newline (or the text's end) and the end of its content, which excludes
/// the carriage return of a `\r\n` terminator. Ties the split to
/// `lines_spec` on the remaining region.
pub fn next_line(c: &str, n: usize, p: usize) -> (r: (usize, usize))
    requires
        n == c@.len(),
        p < n,
    ensures
        ({
            let (e, ec) = r;
            &&& p <= ec <= e <= n
            &&& e < n ==> lines_spec(c@.skip(p as int)) == seq![
                c@.subrange(p as int, ec as int),
            ] + lines_spec(c@.skip(e + 1))
            &&& e == n ==> lines_spec(c@.skip(p as int)) == seq![
                c@.subrange(p as int, ec as int),
            ] && ec == n
        }),
{
    let ghost cv = c@;
    let e = find_nl_from(c, n, p);
    let ec = if e < n && e > p && c.get_char(e - 1) == '\r' {
        e - 1
    } else {
        e
    };
    proof {
        lemma_find_nl(cv.skip(p as int), e - p);
        if e < n {
            assert(cv.skip(p as int).take(e - p) =~= cv.subrange(p as int, e as int));
            assert(strip_cr(cv.skip(p as int).take(e - p)) =~= cv.subrange(p as int, ec as int));
            assert(cv.skip(p as int).skip(e - p + 1) =~= cv.skip(e + 1));
            assert(lines_spec(cv.skip(p as int)) =~= seq![cv.subrange(p as int, ec as int)]
                + lines_spec(cv.skip(e + 1)));
        } else {
            assert(cv.skip(p as int) =~= cv.subrange(p as int, ec as int));
            assert(lines_spec(cv.skip(p as int)) =~= seq![cv.subrange(p as int, ec as int)]);
        }
    }
    (e, ec)
}

} // verus!
