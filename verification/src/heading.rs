//! Recognition of ATX-style heading lines.
//!
//! A heading line is one to six `#` markers followed by at least one
//! whitespace character (space or tab) and the heading text. Lines with seven
//! or more markers are not headings. The heading text is trimmed of leading
//! and trailing whitespace; trailing closing markers are kept as written.

use vstd::prelude::*;

verus! {

/// A parsed heading: the number of leading `#` markers and the heading text.
pub struct Heading {
    /// Nesting level of the heading; 1 is top-level.
    pub depth: usize,
    /// Heading text with markers and surrounding whitespace stripped.
    pub content: String,
}

/// The whitespace characters that may separate markers from heading text.
pub open spec fn is_ws_char(c: char) -> bool {
    c == ' ' || c == '\t'
}

/// Number of consecutive `#` characters from position `i` onward.
pub open spec fn marker_run(line: Seq<char>, i: int) -> int
    decreases line.len() - i,
{
    if 0 <= i < line.len() && line[i] == '#' {
        1 + marker_run(line, i + 1)
    } else {
        0
    }
}

/// Number of consecutive whitespace characters from position `i` onward.
pub open spec fn ws_run(line: Seq<char>, i: int) -> int
    decreases line.len() - i,
{
    if 0 <= i < line.len() && is_ws_char(line[i]) {
        1 + ws_run(line, i + 1)
    } else {
        0
    }
}

/// Number of consecutive whitespace characters just before position `i`.
pub open spec fn ws_run_back(line: Seq<char>, i: int) -> int
    decreases i,
{
    if 0 < i <= line.len() && is_ws_char(line[i - 1]) {
        1 + ws_run_back(line, i - 1)
    } else {
        0
    }
}

/// Whether a line is a heading: one to six markers, then at least one
/// whitespace character.
pub open spec fn spec_is_heading(line: Seq<char>) -> bool {
    let d = marker_run(line, 0);
    1 <= d <= 6 && d < line.len() && is_ws_char(line[d])
}

/// The depth of a heading line: its number of leading markers.
pub open spec fn spec_heading_depth(line: Seq<char>) -> int {
    marker_run(line, 0)
}

/// The text of a heading line: everything after the markers, trimmed of
/// leading and trailing whitespace.
pub open spec fn spec_heading_content(line: Seq<char>) -> Seq<char> {
    let d = marker_run(line, 0);
    let s = d + ws_run(line, d);
    let e = line.len() - ws_run_back(line, line.len() as int);
    if s <= e {
        line.subrange(s, e)
    } else {
        Seq::empty()
    }
}

/// A backward whitespace run is never negative.
proof fn lemma_ws_run_back_nonneg(line: Seq<char>, i: int)
    ensures
        ws_run_back(line, i) >= 0,
    decreases i,
{
    if 0 < i <= line.len() && is_ws_char(line[i - 1]) {
        lemma_ws_run_back_nonneg(line, i - 1);
    }
}

/// If every character in `[i, j)` is a marker, the marker run from `i` covers
/// the run from `j` plus the gap.
proof fn lemma_marker_run_split(line: Seq<char>, i: int, j: int)
    requires
        0 <= i <= j <= line.len(),
        forall|k: int| i <= k < j ==> line[k] == '#',
    ensures
        marker_run(line, i) == (j - i) + marker_run(line, j),
    decreases j - i,
{
    if i < j {
        lemma_marker_run_split(line, i + 1, j);
    }
}

/// If every character in `[i, j)` is whitespace, the whitespace run from `i`
/// covers the run from `j` plus the gap.
proof fn lemma_ws_run_split(line: Seq<char>, i: int, j: int)
    requires
        0 <= i <= j <= line.len(),
        forall|k: int| i <= k < j ==> is_ws_char(line[k]),
    ensures
        ws_run(line, i) == (j - i) + ws_run(line, j),
    decreases j - i,
{
    if i < j {
        lemma_ws_run_split(line, i + 1, j);
    }
}

/// If every character in `[j, i)` is whitespace, the backward whitespace run
/// at `i` covers the run at `j` plus the gap.
proof fn lemma_ws_run_back_split(line: Seq<char>, i: int, j: int)
    requires
        0 <= j <= i <= line.len(),
        forall|k: int| j <= k < i ==> is_ws_char(line[k]),
    ensures
        ws_run_back(line, i) == (i - j) + ws_run_back(line, j),
    decreases i - j,
{
    if j < i {
        lemma_ws_run_back_split(line, i - 1, j);
    }
}

/// Parse one line as a heading, or report that it is none.
pub fn try_parse_heading(line: &str) -> (r: Option<Heading>)
    ensures
        r is Some <==> spec_is_heading(line@),
        r matches Some(h) ==> {
            &&& h.depth == spec_heading_depth(line@)
            &&& h.content@ == spec_heading_content(line@)
        },
{
    let n: usize = line.unicode_len();

    let mut d: usize = 0;
    while d < n && line.get_char(d) == '#'
        invariant
            0 <= d <= n,
            n == line@.len(),
            forall|k: int| 0 <= k < d ==> line@[k] == '#',
        decreases n - d,
    {
        d = d + 1;
    }
    proof {
        lemma_marker_run_split(line@, 0, d as int);
        assert(marker_run(line@, 0) == d + marker_run(line@, d as int));
        assert(marker_run(line@, d as int) == 0);
    }

    if d < 1 || d > 6 {
        return None;
    }
    if d >= n {
        return None;
    }
    let sep = line.get_char(d);
    if !(sep == ' ' || sep == '\t') {
        return None;
    }

    let mut s: usize = d;
    while s < n && (line.get_char(s) == ' ' || line.get_char(s) == '\t')
        invariant
            d <= s <= n,
            n == line@.len(),
            forall|k: int| d <= k < s ==> is_ws_char(line@[k]),
        decreases n - s,
    {
        s = s + 1;
    }
    proof {
        lemma_ws_run_split(line@, d as int, s as int);
        assert(ws_run(line@, d as int) == (s - d) + ws_run(line@, s as int));
        assert(ws_run(line@, s as int) == 0);
    }

    let mut e: usize = n;
    while e > s && (line.get_char(e - 1) == ' ' || line.get_char(e - 1) == '\t')
        invariant
            s <= e <= n,
            n == line@.len(),
            forall|k: int| e <= k < n ==> is_ws_char(line@[k]),
        decreases e,
    {
        e = e - 1;
    }
    proof {
        lemma_ws_run_back_split(line@, n as int, e as int);
        assert(ws_run_back(line@, n as int) == (n - e) + ws_run_back(line@, e as int));
        let spec_e = line@.len() - ws_run_back(line@, line@.len() as int);
        if e == s {
            lemma_ws_run_back_nonneg(line@, s as int);
            assert(spec_e == s - ws_run_back(line@, s as int));
            assert(spec_heading_content(line@) =~= line@.subrange(s as int, s as int));
        } else {
            assert(ws_run_back(line@, e as int) == 0);
            assert(spec_e == e);
        }
    }

    let content = line.substring_char(s, e).to_owned();
    Some(Heading { depth: d, content })
}

} // verus!
