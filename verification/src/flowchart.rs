//! The flowchart lexer: the direction token from the first line, and one
//! node token per distinct arrow-target identifier.

use vstd::prelude::*;

use crate::mermaid::{MermaidToken, TokenType};
use crate::text::{
    lemma_tok_end, lemma_trim_end, lines_spec, next_line, rskip_nonws_from, rskip_ws_from,
    tok_end, trim_end_spec,
};
use vstd::string::StrSliceExecFns;
use vstd::string::StringExecFns;

verus! {

/// The default direction token, recorded when the first line carries no
/// explicit direction.
pub open spec fn default_direction() -> Seq<char> {
    seq!['T', 'D']
}

/// The direction carried by a first line: its last whitespace-delimited
/// token, or the default when the line holds fewer than two tokens.
pub open spec fn direction_of_line(l: Seq<char>) -> Seq<char> {
    let m = trim_end_spec(l);
    let t = tok_end(m);
    let rest = trim_end_spec(m.take(m.len() - t.len()));
    if rest.len() > 0 {
        t
    } else {
        default_direction()
    }
}

/// The direction token of a diagram text: read from the first line, or the
/// default when the text is empty.
pub open spec fn direction_spec(s: Seq<char>) -> Seq<char> {
    if s.len() == 0 {
        default_direction()
    } else {
        direction_of_line(lines_spec(s)[0])
    }
}

/// Parses a flowchart direction from the first line of the text.
///
/// The token's position is recorded as the fixed pair line 1, column 11,
/// the place the direction occupies in a canonical `flowchart` first line.
pub fn parse_direction(content: &str) -> (r: MermaidToken)
    ensures
        r.content@ == direction_spec(content@),
        r.line == 1,
        r.column == 11,
{
    let ghost cv = content@;
    let n = content.unicode_len();
    if n == 0 {
        let d = String::from_str("TD");
        proof {
            reveal_strlit("TD");
            assert(d@ =~= default_direction());
        }
        return MermaidToken { content: d, line: 1, column: 11 };
    }
    let (_e, ec) = next_line(content, n, 0);
    let ghost l = cv.subrange(0, ec as int);
    proof {
        assert(cv.skip(0) =~= cv);
        assert(lines_spec(cv)[0] == l);
    }

    // The last token of the line: trim its end, then take the trailing
    // non-whitespace run.
    let b = rskip_ws_from(content, 0, ec);
    proof {
        lemma_trim_end(l, b as int);
        assert(l.take(b as int) =~= cv.subrange(0, b as int));
    }
    let ghost m = trim_end_spec(l);
    let a = rskip_nonws_from(content, 0, b);
    proof {
        lemma_tok_end(m, a as int);
        assert(m.skip(a as int) =~= cv.subrange(a as int, b as int));
        assert(m.take(m.len() - tok_end(m).len()) =~= cv.subrange(0, a as int));
    }

    // Is there a token before the last one?
    let b2 = rskip_ws_from(content, 0, a);
    proof {
        lemma_trim_end(cv.subrange(0, a as int), b2 as int);
    }
    if b2 > 0 {
        let d = content.substring_char(a, b).to_owned();
        MermaidToken { content: d, line: 1, column: 11 }
    } else {
        let d = String::from_str("TD");
        proof {
            reveal_strlit("TD");
            assert(d@ =~= default_direction());
        }
        MermaidToken { content: d, line: 1, column: 11 }
    }
}

/// The characters an identifier is made of.
pub open spec fn is_ident_char(c: char) -> bool {
    ('a' as u32 <= c as u32 && c as u32 <= 'z' as u32) || ('A' as u32 <= c as u32 && c as u32
        <= 'Z' as u32) || ('0' as u32 <= c as u32 && c as u32 <= '9' as u32) || c == '_'
}

/// Executable mirror of `is_ident_char`.
fn is_ident_char_exec(c: char) -> (r: bool)
    ensures
        r == is_ident_char(c),
{
    let u = c as u32;
    ('a' as u32 <= u && u <= 'z' as u32) || ('A' as u32 <= u && u <= 'Z' as u32) || ('0' as u32
        <= u && u <= '9' as u32) || c == '_'
}

/// The blank characters allowed between an arrow head and its target.
pub open spec fn is_blank(c: char) -> bool {
    c == ' ' || c == '\t'
}

/// Whether an arrow head `-->` (possibly with a longer dash run) ends at
/// position `j` of the line.
pub open spec fn arrow_head_at(l: Seq<char>, j: int) -> bool {
    2 <= j < l.len() && l[j] == '>' && l[j - 1] == '-' && l[j - 2] == '-'
}

/// First position at or after `j` that is not blank.
pub open spec fn skip_blanks_at(l: Seq<char>, j: int) -> int
    decreases l.len() - j,
{
    if 0 <= j < l.len() && is_blank(l[j]) {
        skip_blanks_at(l, j + 1)
    } else {
        j
    }
}

/// First position at or after `j` that is not an identifier character.
pub open spec fn ident_end_at(l: Seq<char>, j: int) -> int
    decreases l.len() - j,
{
    if 0 <= j < l.len() && is_ident_char(l[j]) {
        ident_end_at(l, j + 1)
    } else {
        j
    }
}

/// The node candidates of one line, scanned from position `j` on: for every
/// arrow head, the identifier following it (blanks allowed between), as a
/// pair of its content and its 0-based column.
pub open spec fn scan_line_nodes(l: Seq<char>, j: int) -> Seq<(Seq<char>, int)>
    decreases l.len() - j,
{
    if !(0 <= j < l.len()) {
        Seq::empty()
    } else {
        let rest = scan_line_nodes(l, j + 1);
        if arrow_head_at(l, j) {
            let a = skip_blanks_at(l, j + 1);
            let b = ident_end_at(l, a);
            if b > a {
                seq![(l.subrange(a, b), a)] + rest
            } else {
                rest
            }
        } else {
            rest
        }
    }
}

/// The node candidates of all lines from index `i` on, each carrying its
/// 1-based line number and 0-based column.
pub open spec fn lines_nodes_from(ls: Seq<Seq<char>>, i: int) -> Seq<(Seq<char>, int, int)>
    decreases ls.len() - i,
{
    if !(0 <= i < ls.len()) {
        Seq::empty()
    } else {
        scan_line_nodes(ls[i], 0).map_values(|t: (Seq<char>, int)| (t.0, i + 1, t.1))
            + lines_nodes_from(ls, i + 1)
    }
}

/// Deduplication by content, keeping the first occurrence; `seen` carries
/// the contents already emitted.
pub open spec fn dedup_nodes(ts: Seq<(Seq<char>, int, int)>, seen: Set<Seq<char>>) -> Seq<
    (Seq<char>, int, int),
>
    decreases ts.len(),
{
    if ts.len() == 0 {
        Seq::empty()
    } else if seen.contains(ts[0].0) {
        dedup_nodes(ts.skip(1), seen)
    } else {
        seq![ts[0]] + dedup_nodes(ts.skip(1), seen.insert(ts[0].0))
    }
}

/// The node tokens of a flowchart text: every distinct arrow-target
/// identifier, at its first occurrence's position.
pub open spec fn flowchart_nodes(s: Seq<char>) -> Seq<(Seq<char>, int, int)> {
    dedup_nodes(lines_nodes_from(lines_spec(s), 0), Set::empty())
}

/// The (content, line, column) triples of a token list.
pub open spec fn toks_of(v: Seq<MermaidToken>) -> Seq<(Seq<char>, int, int)> {
    v.map_values(|t: MermaidToken| (t.content@, t.line as int, t.column as int))
}

/// Whether a token list carries exactly the given triples.
pub open spec fn tokens_match(v: Seq<MermaidToken>, ts: Seq<(Seq<char>, int, int)>) -> bool {
    toks_of(v) == ts
}

/// A positional characterization pins down `skip_blanks_at`.
proof fn lemma_skip_blanks_at(l: Seq<char>, j: int, a: int)
    requires
        0 <= j <= a <= l.len(),
        forall|k: int| j <= k < a ==> is_blank(l[k]),
        a == l.len() || !is_blank(l[a]),
    ensures
        skip_blanks_at(l, j) == a,
    decreases a - j,
{
    if j < a {
        lemma_skip_blanks_at(l, j + 1, a);
    }
}

/// A positional characterization pins down `ident_end_at`.
proof fn lemma_ident_end_at(l: Seq<char>, j: int, b: int)
    requires
        0 <= j <= b <= l.len(),
        forall|k: int| j <= k < b ==> is_ident_char(l[k]),
        b == l.len() || !is_ident_char(l[b]),
    ensures
        ident_end_at(l, j) == b,
    decreases b - j,
{
    if j < b {
        lemma_ident_end_at(l, j + 1, b);
    }
}

/// Scans one line for arrow-target identifiers.
fn scan_line_tokens(line: &str, lineno: usize) -> (out: Vec<MermaidToken>)
    ensures
        toks_of(out@) == scan_line_nodes(line@, 0).map_values(
            |t: (Seq<char>, int)| (t.0, lineno as int, t.1),
        ),
{
    let ghost lv = line@;
    let ghost lift = |t: (Seq<char>, int)| (t.0, lineno as int, t.1);
    let n = line.unicode_len();
    let mut out: Vec<MermaidToken> = Vec::new();
    let mut j: usize = 0;
    proof {
        assert(toks_of(out@) =~= Seq::<(Seq<char>, int, int)>::empty());
        assert(toks_of(out@) + scan_line_nodes(lv, 0).map_values(lift) =~= scan_line_nodes(
            lv,
            0,
        ).map_values(lift));
    }
    while j < n
        invariant
            j <= n,
            n == lv.len(),
            lv == line@,
            lift == (|t: (Seq<char>, int)| (t.0, lineno as int, t.1)),
            toks_of(out@) + scan_line_nodes(lv, j as int).map_values(lift) == scan_line_nodes(
                lv,
                0,
            ).map_values(lift),
        decreases n - j,
    {
        let ghost out0 = out@;
        let is_arrow = j >= 2 && line.get_char(j) == '>' && line.get_char(j - 1) == '-'
            && line.get_char(j - 2) == '-';
        assert(is_arrow == arrow_head_at(lv, j as int));
        if is_arrow {
            // Skip the blanks after the head, then take the identifier run.
            let mut a: usize = j + 1;
            while a < n
                invariant
                    j + 1 <= a <= n,
                    n == lv.len(),
                    lv == line@,
                    forall|k: int| j + 1 <= k < a ==> is_blank(lv[k]),
                ensures
                    j + 1 <= a <= n,
                    forall|k: int| j + 1 <= k < a ==> is_blank(lv[k]),
                    a == n || !is_blank(lv[a as int]),
                decreases n - a,
            {
                let c = line.get_char(a);
                if !(c == ' ' || c == '\t') {
                    break;
                }
                a = a + 1;
            }
            let mut b: usize = a;
            while b < n
                invariant
                    a <= b <= n,
                    n == lv.len(),
                    lv == line@,
                    forall|k: int| a <= k < b ==> is_ident_char(lv[k]),
                ensures
                    a <= b <= n,
                    forall|k: int| a <= k < b ==> is_ident_char(lv[k]),
                    b == n || !is_ident_char(lv[b as int]),
                decreases n - b,
            {
                if !is_ident_char_exec(line.get_char(b)) {
                    break;
                }
                b = b + 1;
            }
            proof {
                lemma_skip_blanks_at(lv, j + 1, a as int);
                lemma_ident_end_at(lv, a as int, b as int);
            }
            if b > a {
                let content = line.substring_char(a, b).to_owned();
                out.push(MermaidToken { content, line: lineno, column: a });
                proof {
                    let sa = skip_blanks_at(lv, j + 1);
                    let sb = ident_end_at(lv, sa);
                    assert(scan_line_nodes(lv, j as int) == seq![(lv.subrange(sa, sb), sa)]
                        + scan_line_nodes(lv, j + 1));
                    assert(toks_of(out@) =~= toks_of(out0) + seq![
                        (lv.subrange(sa, sb), lineno as int, sa),
                    ]);
                    assert(scan_line_nodes(lv, j as int).map_values(lift) =~= seq![
                        (lv.subrange(sa, sb), lineno as int, sa),
                    ] + scan_line_nodes(lv, j + 1).map_values(lift));
                    assert(toks_of(out@) + scan_line_nodes(lv, j + 1).map_values(lift)
                        =~= toks_of(out0) + scan_line_nodes(lv, j as int).map_values(lift));
                }
            } else {
                assert(scan_line_nodes(lv, j as int) == scan_line_nodes(lv, j + 1));
            }
        } else {
            assert(scan_line_nodes(lv, j as int) == scan_line_nodes(lv, j + 1));
        }
        j = j + 1;
    }
    proof {
        assert(scan_line_nodes(lv, n as int).map_values(lift) =~= Seq::<
            (Seq<char>, int, int),
        >::empty());
        assert(toks_of(out@) + Seq::<(Seq<char>, int, int)>::empty() =~= toks_of(out@));
    }
    out
}

/// Collects the raw arrow-target tokens of every line, in scan order.
fn collect_nodes(c: &str) -> (out: Vec<MermaidToken>)
    ensures
        toks_of(out@) == lines_nodes_from(lines_spec(c@), 0),
{
    let ghost cv = c@;
    let ghost ls = lines_spec(cv);
    let n = c.unicode_len();
    let mut out: Vec<MermaidToken> = Vec::new();
    let mut p: usize = 0;
    let mut i: usize = 0;
    proof {
        assert(cv.skip(0) =~= cv);
        assert(toks_of(out@) =~= Seq::<(Seq<char>, int, int)>::empty());
        assert(toks_of(out@) + lines_nodes_from(ls, 0) =~= lines_nodes_from(ls, 0));
    }
    while p < n
        invariant
            p <= n,
            i <= p,
            n == cv.len(),
            cv == c@,
            ls == lines_spec(cv),
            i <= ls.len(),
            lines_spec(cv.skip(p as int)) == ls.skip(i as int),
            toks_of(out@) + lines_nodes_from(ls, i as int) == lines_nodes_from(ls, 0),
        decreases n - p,
    {
        let ghost out0 = out@;
        let (e, ec) = next_line(c, n, p);
        let ghost line = cv.subrange(p as int, ec as int);
        proof {
            if e < n {
                assert(ls.skip(i as int) == seq![line] + lines_spec(cv.skip(e + 1)));
                assert((seq![line] + lines_spec(cv.skip(e + 1))).skip(1) =~= lines_spec(
                    cv.skip(e + 1),
                ));
            } else {
                assert(ls.skip(i as int) == seq![line]);
                assert(seq![line].skip(1) =~= Seq::<Seq<char>>::empty());
                assert(lines_spec(cv.skip(n as int)) =~= Seq::<Seq<char>>::empty());
            }
            assert(ls.skip(i as int).len() > 0);
            assert(i < ls.len());
            assert(ls.skip(i as int)[0] == line);
            assert(ls[i as int] == line);
            assert(ls.skip(i as int).skip(1) =~= ls.skip(i + 1));
        }
        let lineno = i + 1;
        let line_slice = c.substring_char(p, ec);
        let mut lt = scan_line_tokens(line_slice, lineno);
        let ghost lt0 = lt@;
        out.append(&mut lt);
        proof {
            assert(toks_of(out@) =~= toks_of(out0) + toks_of(lt0));
            assert(lines_nodes_from(ls, i as int) == scan_line_nodes(line, 0).map_values(
                |t: (Seq<char>, int)| (t.0, i + 1, t.1),
            ) + lines_nodes_from(ls, i + 1));
            assert(toks_of(lt0) =~= scan_line_nodes(line, 0).map_values(
                |t: (Seq<char>, int)| (t.0, i + 1, t.1),
            ));
            assert(toks_of(out@) + lines_nodes_from(ls, i + 1) =~= toks_of(out0) + lines_nodes_from(
                ls,
                i as int,
            ));
        }
        p = if e < n {
            e + 1
        } else {
            n
        };
        i = i + 1;
        proof {
            if p == n {
                assert(lines_spec(cv.skip(n as int)) =~= Seq::<Seq<char>>::empty());
                if i < ls.len() {
                    assert(ls.skip(i as int).len() > 0);
                }
            }
        }
    }
    proof {
        assert(lines_spec(cv.skip(n as int)) =~= Seq::<Seq<char>>::empty());
        assert(ls.skip(i as int).len() == 0);
        assert(lines_nodes_from(ls, i as int) =~= Seq::<(Seq<char>, int, int)>::empty());
        assert(toks_of(out@) + Seq::<(Seq<char>, int, int)>::empty() =~= toks_of(out@));
    }
    out
}

/// Whether some token of `v` already carries the content `s`.
fn contains_content(v: &Vec<MermaidToken>, s: &str) -> (r: bool)
    ensures
        r == exists|k: int| 0 <= k < v@.len() && v@[k].content@ == s@,
{
    let mut k: usize = 0;
    while k < v.len()
        invariant
            k <= v@.len(),
            forall|j: int| 0 <= j < k ==> v@[j].content@ != s@,
        decreases v@.len() - k,
    {
        if crate::text::str_eq(v[k].content.as_str(), s) {
            assert(v@[k as int].content@ == s@);
            return true;
        }
        k = k + 1;
    }
    false
}

/// Drops every token whose content already occurred earlier in the list.
fn dedup_tokens(raw: Vec<MermaidToken>) -> (out: Vec<MermaidToken>)
    ensures
        toks_of(out@) == dedup_nodes(toks_of(raw@), Set::empty()),
{
    let ghost full = toks_of(raw@);
    let mut rest = raw;
    let mut out: Vec<MermaidToken> = Vec::new();
    let ghost mut seen: Set<Seq<char>> = Set::empty();
    proof {
        assert(toks_of(out@) =~= Seq::<(Seq<char>, int, int)>::empty());
        assert(toks_of(out@) + dedup_nodes(toks_of(rest@), seen) =~= dedup_nodes(full, Set::empty()));
    }
    while rest.len() > 0
        invariant
            toks_of(out@) + dedup_nodes(toks_of(rest@), seen) == dedup_nodes(full, Set::empty()),
            forall|s: Seq<char>| #[trigger] seen.contains(s) <==> exists|k: int|
                0 <= k < out@.len() && out@[k].content@ == s,
        decreases rest@.len(),
    {
        let ghost rest0 = rest@;
        let ghost out0 = out@;
        let ghost seen0 = seen;
        let t = rest.remove(0);
        proof {
            assert(toks_of(rest0)[0] == (t.content@, t.line as int, t.column as int));
            assert(toks_of(rest@) =~= toks_of(rest0).skip(1));
        }
        let dup = contains_content(&out, t.content.as_str());
        assert(dup == seen.contains(t.content@));
        if !dup {
            proof {
                assert(dedup_nodes(toks_of(rest0), seen0) == seq![toks_of(rest0)[0]] + dedup_nodes(
                    toks_of(rest0).skip(1),
                    seen0.insert(t.content@),
                ));
                seen = seen0.insert(t.content@);
            }
            out.push(t);
            proof {
                assert(toks_of(out@) =~= toks_of(out0) + seq![
                    (out@.last().content@, out@.last().line as int, out@.last().column as int),
                ]);
                assert(toks_of(out@) + dedup_nodes(toks_of(rest@), seen) =~= toks_of(out0)
                    + dedup_nodes(toks_of(rest0), seen0));
                assert forall|s: Seq<char>| #[trigger] seen.contains(s) <==> exists|k: int|
                    0 <= k < out@.len() && out@[k].content@ == s by {
                    if seen.contains(s) {
                        if s == out@.last().content@ {
                            assert(out@[out@.len() - 1].content@ == s);
                        } else {
                            let k = choose|k: int| 0 <= k < out0.len() && out0[k].content@ == s;
                            if seen0.contains(s) {
                                assert(out@[k].content@ == s);
                            }
                        }
                    } else {
                        assert(forall|k: int| 0 <= k < out0.len() ==> out@[k] == out0[k]);
                    }
                }
            }
        } else {
            proof {
                assert(dedup_nodes(toks_of(rest0), seen) == dedup_nodes(
                    toks_of(rest0).skip(1),
                    seen,
                ));
            }
        }
    }
    proof {
        assert(toks_of(rest@).len() == 0);
        assert(dedup_nodes(toks_of(rest@), seen) =~= Seq::<(Seq<char>, int, int)>::empty());
        assert(toks_of(out@) + Seq::<(Seq<char>, int, int)>::empty() =~= toks_of(out@));
    }
    out
}

/// Parses all the data relevant to a flowchart: the direction token of the
/// first line, and one node token per distinct arrow-target identifier,
/// each carrying its first occurrence's position.
pub fn parse_flowchart(content: &str) -> (r: Vec<(TokenType, Vec<MermaidToken>)>)
    ensures
        r@.len() == 2,
        r@[0].0 == TokenType::DiagramDirection,
        r@[0].1@.len() == 1,
        r@[0].1@[0].content@ == direction_spec(content@),
        r@[0].1@[0].line == 1,
        r@[0].1@[0].column == 11,
        r@[1].0 == TokenType::Node,
        tokens_match(r@[1].1@, flowchart_nodes(content@)),
{
    let direction = parse_direction(content);
    let raw = collect_nodes(content);
    let nodes = dedup_tokens(raw);
    let mut direction_tokens: Vec<MermaidToken> = Vec::new();
    direction_tokens.push(direction);
    let mut r: Vec<(TokenType, Vec<MermaidToken>)> = Vec::new();
    r.push((TokenType::DiagramDirection, direction_tokens));
    r.push((TokenType::Node, nodes));
    r
}

} // verus!
