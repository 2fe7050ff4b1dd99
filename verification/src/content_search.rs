//! The compute core of file content search: scanning one file's text, line
//! by line, for a search string. Reading the file is the host layer's I/O;
//! the scan itself — line splitting, case folding, first-occurrence search —
//! is verified here. Positions and lengths count characters; a
//! case-insensitive search scans the lowercased line for the lowercased
//! needle and reports positions in the lowercased line.

use vstd::prelude::*;

verus! {

/// One hit: the file, the 1-based line, the column span of the first
/// occurrence in that line, the line itself and the searched text.
#[derive(Clone, Debug)]
pub struct TextSearchResult {
    /// File path.
    pub path: String,
    /// Line number (1-based).
    pub line_number: usize,
    /// Column start position.
    pub column_start: usize,
    /// Column end position; it saturates at the machine's limit.
    pub column_end: usize,
    /// The matching line content.
    pub line_content: String,
    /// Match text.
    pub match_text: String,
}

/// Where a hit's column span ends: the start plus the searched text's
/// length, held to the machine's limit.
pub open spec fn end_column(start: int, len: int) -> int {
    if start + len <= usize::MAX {
        start + len
    } else {
        usize::MAX as int
    }
}

/// What `str::to_lowercase` returns: a function of the characters alone.
pub uninterp spec fn lower_of(s: Seq<char>) -> Seq<char>;

/// Relies on `str::to_lowercase`: the result depends on the characters
/// alone, and an empty string stays empty.
#[verifier::external_body]
fn to_lowercase(s: &str) -> (r: String)
    ensures
        r@ == lower_of(s@),
        s@.len() == 0 ==> r@.len() == 0,
{
    s.to_lowercase()
}

/// A line with one trailing carriage return removed.
pub open spec fn strip_cr(l: Seq<char>) -> Seq<char> {
    if l.len() > 0 && l.last() == '\r' {
        l.drop_last()
    } else {
        l
    }
}

/// The lines of `s` from position `i` on, given the lines already split off
/// and the partial line being read.
pub open spec fn lines_from(s: Seq<char>, i: int, acc: Seq<Seq<char>>, cur: Seq<char>) -> Seq<
    Seq<char>,
>
    decreases s.len() - i,
{
    if i >= s.len() {
        if cur.len() == 0 {
            acc
        } else {
            acc.push(strip_cr(cur))
        }
    } else if s[i] == '\n' {
        lines_from(s, i + 1, acc.push(strip_cr(cur)), Seq::empty())
    } else {
        lines_from(s, i + 1, acc, cur.push(s[i]))
    }
}

/// The lines of a text: split at each line feed, one carriage return
/// stripped from a line's end, no final empty line after a trailing line
/// feed.
pub open spec fn split_lines(s: Seq<char>) -> Seq<Seq<char>> {
    lines_from(s, 0, Seq::empty(), Seq::empty())
}

/// Whether `needle` occurs in `hay` starting at position `p`.
pub open spec fn is_match_at(hay: Seq<char>, needle: Seq<char>, p: int) -> bool {
    0 <= p && p + needle.len() <= hay.len() && hay.subrange(p, p + needle.len()) == needle
}

/// Whether `needle` occurs anywhere in `hay`.
pub open spec fn has_match(hay: Seq<char>, needle: Seq<char>) -> bool {
    exists|p: int| is_match_at(hay, needle, p)
}

/// The line a search scans: the line itself, or its lowercased form for a
/// case-insensitive search.
pub open spec fn scanned_line(line: Seq<char>, case_sensitive: bool) -> Seq<char> {
    if case_sensitive {
        line
    } else {
        lower_of(line)
    }
}

/// The needle a search scans for: the search text, or its lowercased form
/// for a case-insensitive search.
pub open spec fn scanned_needle(search_text: Seq<char>, case_sensitive: bool) -> Seq<char> {
    if case_sensitive {
        search_text
    } else {
        lower_of(search_text)
    }
}

/// Whether `needle` occurs in `hay` at position `p`.
fn matches_at(hay: &Vec<char>, needle: &Vec<char>, p: usize) -> (r: bool)
    requires
        p + needle@.len() <= hay@.len(),
    ensures
        r == is_match_at(hay@, needle@, p as int),
{
    let hay_len = hay.len();
    let mut m: usize = 0;
    while m < needle.len()
        invariant
            p + needle@.len() <= hay@.len(),
            hay_len == hay@.len(),
            m <= needle@.len(),
            forall|k: int| 0 <= k < m ==> hay@[p + k] == needle@[k],
        decreases needle@.len() - m,
    {
        if hay[p + m] != needle[m] {
            proof {
                assert(!is_match_at(hay@, needle@, p as int)) by {
                    if is_match_at(hay@, needle@, p as int) {
                        assert(hay@.subrange(p as int, p + needle@.len())[m as int]
                            == needle@[m as int]);
                    }
                }
            }
            return false;
        }
        m += 1;
    }
    proof {
        assert(hay@.subrange(p as int, p + needle@.len()) =~= needle@);
    }
    true
}

/// Finds the first occurrence of `needle` in `hay`, by character position.
fn find_first(hay: &Vec<char>, needle: &Vec<char>) -> (r: Option<usize>)
    ensures
        r matches Some(p) ==> is_match_at(hay@, needle@, p as int) && (forall|q: int|
            0 <= q < p ==> !(#[trigger] is_match_at(hay@, needle@, q))),
        r is None ==> forall|q: int| !(#[trigger] is_match_at(hay@, needle@, q)),
{
    if needle.len() > hay.len() {
        proof {
            assert forall|q: int| !(#[trigger] is_match_at(hay@, needle@, q)) by {}
        }
        return None;
    }
    if needle.len() == 0 {
        proof {
            assert(hay@.subrange(0, 0) =~= needle@);
        }
        return Some(0);
    }
    let last_start = hay.len() - needle.len();
    let mut p: usize = 0;
    while p <= last_start
        invariant
            1 <= needle@.len() <= hay@.len(),
            last_start == hay@.len() - needle@.len(),
            last_start < hay@.len() <= usize::MAX,
            p <= last_start + 1,
            forall|q: int| 0 <= q < p ==> !(#[trigger] is_match_at(hay@, needle@, q)),
        decreases last_start + 1 - p,
    {
        if matches_at(hay, needle, p) {
            return Some(p);
        }
        p += 1;
    }
    proof {
        assert forall|q: int| !(#[trigger] is_match_at(hay@, needle@, q)) by {
            if 0 <= q && q + needle@.len() <= hay@.len() {
                assert(q < p);
            }
        }
    }
    None
}

/// Splits a text into its lines.
fn split_lines_exec(content: &Vec<char>) -> (r: Vec<Vec<char>>)
    ensures
        r.deep_view() == split_lines(content@),
{
    let mut acc: Vec<Vec<char>> = Vec::new();
    let mut cur: Vec<char> = Vec::new();
    let mut i: usize = 0;
    proof {
        assert(acc.deep_view() =~= Seq::<Seq<char>>::empty());
        assert(cur@ =~= Seq::<char>::empty());
    }
    while i < content.len()
        invariant
            i <= content@.len(),
            split_lines(content@) == lines_from(content@, i as int, acc.deep_view(), cur@),
        decreases content@.len() - i,
    {
        let c = content[i];
        if c == '\n' {
            let mut done = cur;
            cur = Vec::new();
            if done.len() > 0 && done[done.len() - 1] == '\r' {
                done.pop();
            }
            let ghost before = acc.deep_view();
            let ghost donev = done@;
            acc.push(done);
            proof {
                assert(acc.deep_view() =~~= before.push(donev));
                assert(cur@ =~= Seq::<char>::empty());
            }
        } else {
            cur.push(c);
        }
        i += 1;
    }
    if cur.len() > 0 {
        if cur[cur.len() - 1] == '\r' {
            cur.pop();
        }
        let ghost before = acc.deep_view();
        let ghost curv = cur@;
        acc.push(cur);
        proof {
            assert(acc.deep_view() =~~= before.push(curv));
        }
    }
    acc
}

/// Scans one file's content for a search string: one hit per line that
/// contains it, at the first occurrence in that line, in line order. The
/// host layer reads the file and passes its text in.
pub fn search_in_text(
    path: String,
    content: String,
    search_text: String,
    case_sensitive: bool,
) -> (r: Vec<TextSearchResult>)
    ensures
        ({
            let lines = split_lines(content@);
            let needle = scanned_needle(search_text@, case_sensitive);
            &&& forall|t: int|
                0 <= t < r@.len() ==> {
                    let e = #[trigger] r@[t];
                    &&& 1 <= e.line_number <= lines.len()
                    &&& e.line_content@ == lines[e.line_number - 1]
                    &&& is_match_at(
                        scanned_line(lines[e.line_number - 1], case_sensitive),
                        needle,
                        e.column_start as int,
                    )
                    &&& forall|q: int|
                        0 <= q < e.column_start ==> !(#[trigger] is_match_at(
                            scanned_line(lines[e.line_number - 1], case_sensitive),
                            needle,
                            q,
                        ))
                    &&& e.column_end == end_column(e.column_start as int, search_text@.len() as int)
                    &&& e.path@ == path@
                    &&& e.match_text@ == search_text@
                }
            &&& forall|t: int, u: int|
                0 <= t < u < r@.len() ==> r@[t].line_number < r@[u].line_number
            &&& forall|i: int|
                0 <= i < lines.len() && has_match(
                    scanned_line(#[trigger] lines[i], case_sensitive),
                    needle,
                ) ==> exists|t: int| 0 <= t < r@.len() && (#[trigger] r@[t]).line_number == i + 1
        }),
{
    let cchars = crate::security_utils::str_chars(content.as_str());
    let lines = split_lines_exec(&cchars);
    let ghost linesv = split_lines(content@);
    proof {
        assert(lines.deep_view() == linesv);
    }
    let search_chars = crate::security_utils::str_chars(search_text.as_str());
    let search_len = search_chars.len();
    let needle: Vec<char> = if case_sensitive {
        search_chars
    } else {
        let lowered = to_lowercase(search_text.as_str());
        crate::security_utils::str_chars(lowered.as_str())
    };

    let mut results: Vec<TextSearchResult> = Vec::new();
    let mut i: usize = 0;
    while i < lines.len()
        invariant
            i <= lines@.len(),
            lines.deep_view() == linesv,
            needle@ == scanned_needle(search_text@, case_sensitive),
            search_len == search_text@.len(),
            forall|t: int|
                0 <= t < results@.len() ==> {
                    let e = #[trigger] results@[t];
                    &&& 1 <= e.line_number <= i
                    &&& e.line_content@ == linesv[e.line_number - 1]
                    &&& is_match_at(
                        scanned_line(linesv[e.line_number - 1], case_sensitive),
                        needle@,
                        e.column_start as int,
                    )
                    &&& forall|q: int|
                        0 <= q < e.column_start ==> !(#[trigger] is_match_at(
                            scanned_line(linesv[e.line_number - 1], case_sensitive),
                            needle@,
                            q,
                        ))
                    &&& e.column_end == end_column(e.column_start as int, search_text@.len() as int)
                    &&& e.path@ == path@
                    &&& e.match_text@ == search_text@
                },
            forall|t: int, u: int|
                0 <= t < u < results@.len() ==> results@[t].line_number < results@[u].line_number,
            forall|k: int|
                0 <= k < i && has_match(
                    scanned_line(#[trigger] linesv[k], case_sensitive),
                    needle@,
                ) ==> exists|t: int|
                    0 <= t < results@.len() && (#[trigger] results@[t]).line_number == k + 1,
        decreases lines@.len() - i,
    {
        let line = &lines[i];
        proof {
            assert(line@ == linesv[i as int]);
        }
        let hay: Vec<char> = if case_sensitive {
            let mut copy: Vec<char> = Vec::new();
            let mut m: usize = 0;
            while m < line.len()
                invariant
                    m <= line@.len(),
                    copy@ == line@.take(m as int),
                decreases line@.len() - m,
            {
                copy.push(line[m]);
                proof {
                    assert(copy@ =~= line@.take(m + 1));
                }
                m += 1;
            }
            proof {
                assert(line@.take(line@.len() as int) =~= line@);
            }
            copy
        } else {
            let line_string = crate::security_utils::string_from_chars(line);
            let lowered = to_lowercase(line_string.as_str());
            crate::security_utils::str_chars(lowered.as_str())
        };
        proof {
            assert(hay@ == scanned_line(linesv[i as int], case_sensitive));
        }
        let ghost before = results@;
        let found = find_first(&hay, &needle);
        if let Some(pos) = found {
            let end = if search_len <= usize::MAX - pos {
                pos + search_len
            } else {
                usize::MAX
            };
            results.push(
                TextSearchResult {
                    path: path.clone(),
                    line_number: i + 1,
                    column_start: pos,
                    column_end: end,
                    line_content: crate::security_utils::string_from_chars(line),
                    match_text: search_text.clone(),
                },
            );
        }
        proof {
            assert forall|k: int|
                0 <= k < i + 1 && has_match(
                    scanned_line(#[trigger] linesv[k], case_sensitive),
                    needle@,
                ) implies exists|t: int|
                0 <= t < results@.len() && (#[trigger] results@[t]).line_number == k + 1 by {
                if k < i {
                    let t = choose|t: int|
                        0 <= t < before.len() && (#[trigger] before[t]).line_number == k + 1;
                    assert(results@[t].line_number == k + 1);
                } else {
                    assert(found is Some) by {
                        if found is None {
                            let q = choose|q: int|
                                is_match_at(scanned_line(linesv[k], case_sensitive), needle@, q);
                            assert(!is_match_at(hay@, needle@, q));
                        }
                    }
                    assert(results@[results@.len() - 1].line_number == i + 1);
                }
            }
        }
        i += 1;
    }
    results
}

} // verus!
