//! The optional front-matter block of a diagram: a `---` delimiter line, a
//! `title:` line, and a closing delimiter equal to the opening one.

use vstd::prelude::*;

use crate::text::{
    lemma_trim_end, lemma_trim_start, lines_spec, join_lines, next_line, rskip_ws_from,
    skip_ws_from, trim_spec, trim_start_spec,
};
use vstd::string::StrSliceExecFns;
use vstd::string::StringExecFns;

verus! {

/// The header of a diagram.
#[derive(Debug, PartialEq, Eq)]
pub struct MermaidDiagramHeader {
    /// The title of the diagram.
    pub title: String,
}

/// Errors when parsing a diagram header.
#[derive(Debug, PartialEq, Eq)]
pub enum ParseHeaderErrors {
    NotEnoughHeaderLines,
    InvalidTopDelimiterFormat,
    InvalidBottomDelimiterFormat,
    TitleFormatError(ParseTitleErrors),
}

/// Errors when parsing the title line of a header.
#[derive(Debug, PartialEq, Eq)]
pub enum ParseTitleErrors {
    IncorrectTitleFormat,
}

/// The literal prefix a title line must start with.
pub open spec fn title_prefix() -> Seq<char> {
    seq!['t', 'i', 't', 'l', 'e', ':']
}

/// The delimiter line that opens and closes a header block.
pub open spec fn delim_line() -> Seq<char> {
    seq!['-', '-', '-']
}

/// Whether `l` is an acceptable title line.
pub open spec fn title_ok(l: Seq<char>) -> bool {
    l.len() >= 6 && l.take(6) == title_prefix()
}

/// The title carried by an acceptable title line: everything after the
/// prefix, trimmed of surrounding whitespace.
pub open spec fn title_value(l: Seq<char>) -> Seq<char> {
    trim_spec(l.skip(6))
}

/// The header lines of a text: leading whitespace is dropped, then the text
/// is split into lines.
pub open spec fn header_lines(content: Seq<char>) -> Seq<Seq<char>> {
    lines_spec(trim_start_spec(content))
}

/// Attempts to parse a diagram title from a line.
///
/// Succeeds exactly on lines starting with `title:`, and then returns the
/// rest of the line with surrounding whitespace trimmed.
pub fn parse_title(title_line: &str) -> (r: Result<String, ParseTitleErrors>)
    ensures
        title_ok(title_line@) ==> (r matches Ok(t) && t@ == title_value(title_line@)),
        !title_ok(title_line@) ==> r == Err::<String, ParseTitleErrors>(
            ParseTitleErrors::IncorrectTitleFormat,
        ),
{
    let n = title_line.unicode_len();
    if n < 6 {
        return Err(ParseTitleErrors::IncorrectTitleFormat);
    }
    let prefix_matches = title_line.get_char(0) == 't' && title_line.get_char(1) == 'i'
        && title_line.get_char(2) == 't' && title_line.get_char(3) == 'l'
        && title_line.get_char(4) == 'e' && title_line.get_char(5) == ':';
    if !prefix_matches {
        proof {
            assert(title_line@.take(6) != title_prefix()) by {
                if title_line@.take(6) == title_prefix() {
                    assert(title_line@[0] == title_line@.take(6)[0]);
                    assert(title_line@[1] == title_line@.take(6)[1]);
                    assert(title_line@[2] == title_line@.take(6)[2]);
                    assert(title_line@[3] == title_line@.take(6)[3]);
                    assert(title_line@[4] == title_line@.take(6)[4]);
                    assert(title_line@[5] == title_line@.take(6)[5]);
                }
            }
        }
        return Err(ParseTitleErrors::IncorrectTitleFormat);
    }
    proof {
        assert(title_line@.take(6) =~= title_prefix());
    }
    let a = skip_ws_from(title_line, n, 6);
    let b = rskip_ws_from(title_line, a, n);
    let t = title_line.substring_char(a, b).to_owned();
    proof {
        let l = title_line@;
        lemma_trim_start(l.skip(6), a - 6);
        assert(l.skip(6).skip(a - 6) =~= l.skip(a as int));
        lemma_trim_end(l.skip(a as int), b - a);
        assert(l.skip(a as int).take(b - a) =~= l.subrange(a as int, b as int));
    }
    Ok(t)
}

/// Re-joins the lines of the region starting at `p0`, each preceded by a
/// newline.
fn join_remaining(c: &str, n: usize, p0: usize) -> (rest: String)
    requires
        n == c@.len(),
        p0 <= n,
    ensures
        rest@ == join_lines(lines_spec(c@.skip(p0 as int))),
{
    let ghost cv = c@;
    let mut rest = String::new();
    let mut p = p0;
    proof {
        assert(rest@ + join_lines(lines_spec(cv.skip(p0 as int))) =~= join_lines(
            lines_spec(cv.skip(p0 as int)),
        ));
    }
    while p < n
        invariant
            p <= n,
            n == cv.len(),
            cv == c@,
            rest@ + join_lines(lines_spec(cv.skip(p as int))) == join_lines(
                lines_spec(cv.skip(p0 as int)),
            ),
        decreases n - p,
    {
        let ghost rest0 = rest@;
        let ghost region = cv.skip(p as int);
        let (e, ec) = next_line(c, n, p);
        let ghost line = cv.subrange(p as int, ec as int);
        rest.append("\n");
        let line_slice = c.substring_char(p, ec);
        rest.append(line_slice);
        proof {
            reveal_strlit("\n");
            assert("\n"@ =~= seq!['\n']);
            let tail = if e < n {
                lines_spec(cv.skip(e + 1))
            } else {
                Seq::<Seq<char>>::empty()
            };
            assert(lines_spec(region) == seq![line] + tail);
            assert((seq![line] + tail)[0] == line);
            assert((seq![line] + tail).skip(1) =~= tail);
            assert(join_lines(lines_spec(region)) == seq!['\n'] + line + join_lines(tail));
            assert(rest@ =~= rest0 + seq!['\n'] + line);
            if e >= n {
                assert(lines_spec(cv.skip(n as int)) =~= Seq::<Seq<char>>::empty());
            }
            assert(rest@ + join_lines(tail) =~= rest0 + (seq!['\n'] + line + join_lines(tail)));
        }
        p = if e < n {
            e + 1
        } else {
            n
        };
    }
    proof {
        assert(lines_spec(cv.skip(n as int)) =~= Seq::<Seq<char>>::empty());
        assert(rest@ + join_lines(lines_spec(cv.skip(n as int))) =~= rest@);
    }
    rest
}

/// Attempts to extract a header block from diagram text.
///
/// After dropping leading whitespace there must be at least three lines:
/// the literal `---`, a `title:` line, and a closing delimiter equal to the
/// opening one. On success the remaining lines are re-joined, each preceded
/// by a newline, and returned beside the header.
pub fn parse_header(content: &str) -> (r: Result<(String, MermaidDiagramHeader), ParseHeaderErrors>)
    ensures
        ({
            let ls = header_lines(content@);
            &&& ls.len() < 3 ==> r == Err::<(String, MermaidDiagramHeader), ParseHeaderErrors>(
                ParseHeaderErrors::NotEnoughHeaderLines,
            )
            &&& ls.len() >= 3 && ls[0] != delim_line() ==> r == Err::<
                (String, MermaidDiagramHeader),
                ParseHeaderErrors,
            >(ParseHeaderErrors::InvalidTopDelimiterFormat)
            &&& ls.len() >= 3 && ls[0] == delim_line() && ls[2] != ls[0] ==> r == Err::<
                (String, MermaidDiagramHeader),
                ParseHeaderErrors,
            >(ParseHeaderErrors::InvalidBottomDelimiterFormat)
            &&& ls.len() >= 3 && ls[0] == delim_line() && ls[2] == ls[0] && !title_ok(ls[1])
                ==> r == Err::<(String, MermaidDiagramHeader), ParseHeaderErrors>(
                ParseHeaderErrors::TitleFormatError(ParseTitleErrors::IncorrectTitleFormat),
            )
            &&& ls.len() >= 3 && ls[0] == delim_line() && ls[2] == ls[0] && title_ok(ls[1]) ==> (
            r matches Ok(p) && p.0@ == join_lines(ls.skip(3)) && p.1.title@ == title_value(ls[1]))
        }),
{
    let c = content;
    let n = c.unicode_len();
    let ghost cv = c@;

    // Trim the leading whitespace; everything is indexed in `c` itself.
    let k = skip_ws_from(c, n, 0);
    proof {
        lemma_trim_start(cv, k as int);
        assert(trim_start_spec(cv) =~= cv.skip(k as int));
    }
    if k == n {
        proof {
            assert(lines_spec(cv.skip(n as int)) =~= Seq::<Seq<char>>::empty());
        }
        return Err(ParseHeaderErrors::NotEnoughHeaderLines);
    }

    // First line.
    let (e1, e1c) = next_line(c, n, k);
    let ghost l1 = cv.subrange(k as int, e1c as int);
    if e1 == n {
        assert(header_lines(cv).len() == 1);
        return Err(ParseHeaderErrors::NotEnoughHeaderLines);
    }
    let s2 = e1 + 1;
    assert(header_lines(cv) == seq![l1] + lines_spec(cv.skip(s2 as int)));
    if s2 == n {
        proof {
            assert(lines_spec(cv.skip(n as int)) =~= Seq::<Seq<char>>::empty());
            assert(header_lines(cv).len() == 1);
        }
        return Err(ParseHeaderErrors::NotEnoughHeaderLines);
    }

    // Second line.
    let (e2, e2c) = next_line(c, n, s2);
    let ghost l2 = cv.subrange(s2 as int, e2c as int);
    if e2 == n {
        proof {
            assert(header_lines(cv) =~= seq![l1, l2]);
        }
        return Err(ParseHeaderErrors::NotEnoughHeaderLines);
    }
    let s3 = e2 + 1;
    assert(lines_spec(cv.skip(s2 as int)) == seq![l2] + lines_spec(cv.skip(s3 as int)));
    if s3 == n {
        proof {
            assert(lines_spec(cv.skip(n as int)) =~= Seq::<Seq<char>>::empty());
            assert(header_lines(cv) =~= seq![l1, l2]);
        }
        return Err(ParseHeaderErrors::NotEnoughHeaderLines);
    }

    // Third line; it may lack a terminator.
    let (e3, e3c) = next_line(c, n, s3);
    let ghost l3 = cv.subrange(s3 as int, e3c as int);
    let ghost ls = header_lines(cv);
    proof {
        if e3 < n {
            assert(lines_spec(cv.skip(s3 as int)) == seq![l3] + lines_spec(cv.skip(e3 + 1)));
            assert(ls =~= seq![l1, l2, l3] + lines_spec(cv.skip(e3 + 1)));
            assert(ls.skip(3) =~= lines_spec(cv.skip(e3 + 1)));
        } else {
            assert(ls =~= seq![l1, l2, l3]);
            assert(ls.skip(3) =~= Seq::<Seq<char>>::empty());
        }
        assert(ls.len() >= 3 && ls[0] == l1 && ls[1] == l2 && ls[2] == l3);
    }

    // The top delimiter must be exactly `---`.
    let top_is_delim = e1c - k == 3 && c.get_char(k) == '-' && c.get_char(k + 1) == '-'
        && c.get_char(k + 2) == '-';
    proof {
        if top_is_delim {
            assert(l1 =~= delim_line());
        } else {
            if l1 == delim_line() {
                assert(l1.len() == 3);
                assert(l1[0] == cv[k as int] && l1[1] == cv[k + 1] && l1[2] == cv[k + 2]);
            }
        }
    }
    if !top_is_delim {
        return Err(ParseHeaderErrors::InvalidTopDelimiterFormat);
    }

    // The bottom delimiter must equal the top one.
    let bottom_is_delim = e3c - s3 == 3 && c.get_char(s3) == '-' && c.get_char(s3 + 1) == '-'
        && c.get_char(s3 + 2) == '-';
    proof {
        if bottom_is_delim {
            assert(l3 =~= delim_line());
        } else {
            if l3 == delim_line() {
                assert(l3.len() == 3);
                assert(l3[0] == cv[s3 as int] && l3[1] == cv[s3 + 1] && l3[2] == cv[s3 + 2]);
            }
        }
    }
    if !bottom_is_delim {
        return Err(ParseHeaderErrors::InvalidBottomDelimiterFormat);
    }

    // The middle line must carry the title.
    let title_line = c.substring_char(s2, e2c);
    let title = match parse_title(title_line) {
        Ok(t) => t,
        Err(e) => {
            return Err(ParseHeaderErrors::TitleFormatError(e));
        },
    };

    // Re-join the lines after the header, each preceded by a newline.
    let p0 = if e3 < n {
        e3 + 1
    } else {
        n
    };
    let rest = join_remaining(c, n, p0);
    proof {
        if e3 >= n {
            assert(lines_spec(cv.skip(n as int)) =~= Seq::<Seq<char>>::empty());
        }
        assert(rest@ == join_lines(ls.skip(3)));
    }
    Ok((rest, MermaidDiagramHeader { title }))
}

} // verus!
