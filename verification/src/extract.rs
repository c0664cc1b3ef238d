//! The extraction driver: feed every line of a document to the state
//! machine, in order, and hand back the completed sections.

use vstd::prelude::*;
use crate::heading::spec_heading_content;
use crate::heading::spec_heading_depth;
use crate::heading::spec_is_heading;
use crate::matcher::regex_found;
use crate::matcher::Matcher;
use crate::state::spec_init;
use crate::state::spec_is_fence;
use crate::state::spec_step;
use crate::state::SpecState;
use crate::state::State;

verus! {

/// One extracted section: its lines in original order, the matched heading
/// line first.
pub type MarkdownSection = Vec<String>;

/// The machine state after feeding every line of `lines`, in order.
pub open spec fn spec_run(lines: Seq<Seq<char>>, pattern: Seq<char>, case_sensitive: bool) -> SpecState
    decreases lines.len(),
{
    if lines.len() == 0 {
        spec_init()
    } else {
        spec_step(
            spec_run(lines.drop_last(), pattern, case_sensitive),
            lines.last(),
            pattern,
            case_sensitive,
        )
    }
}

/// Every section extracted from `lines`: the completed sections in document
/// order, with a still-open section closed by the end of the input.
pub open spec fn spec_extract(
    lines: Seq<Seq<char>>,
    pattern: Seq<char>,
    case_sensitive: bool,
) -> Seq<Seq<Seq<char>>> {
    let st = spec_run(lines, pattern, case_sensitive);
    if st.within {
        st.completed.push(st.current)
    } else {
        st.completed
    }
}

/// Extract every section of `lines` whose heading text the matcher finds,
/// in document order.
pub fn extract_from_lines(lines: &Vec<String>, matcher: &Matcher) -> (r: Vec<MarkdownSection>)
    ensures
        r.deep_view() == spec_extract(
            lines.deep_view(),
            matcher.spec_pattern(),
            matcher.spec_case_sensitive(),
        ),
{
    let mut state = State::new();
    let mut i: usize = 0;
    while i < lines.len()
        invariant
            0 <= i <= lines@.len(),
            state@ == spec_run(
                lines.deep_view().subrange(0, i as int),
                matcher.spec_pattern(),
                matcher.spec_case_sensitive(),
            ),
        decreases lines@.len() - i,
    {
        state.step(&lines[i], matcher);
        proof {
            let lv = lines.deep_view();
            assert(lv.subrange(0, i + 1).drop_last() =~~= lv.subrange(0, i as int));
            assert(lv.subrange(0, i + 1).last() == lines@[i as int]@);
        }
        i = i + 1;
    }
    proof {
        assert(lines.deep_view().subrange(0, lines@.len() as int) =~~= lines.deep_view());
    }
    state.finish()
}

/// The first matching section of `lines`, if any: first-match mode.
pub fn first_matching_section(lines: &Vec<String>, matcher: &Matcher) -> (r: Option<
    MarkdownSection,
>)
    ensures
        ({
            let all = spec_extract(
                lines.deep_view(),
                matcher.spec_pattern(),
                matcher.spec_case_sensitive(),
            );
            match r {
                Some(s) => all.len() > 0 && s.deep_view() == all[0],
                None => all.len() == 0,
            }
        }),
{
    let mut all = extract_from_lines(lines, matcher);
    if all.len() == 0 {
        None
    } else {
        let first = all.remove(0);
        Some(first)
    }
}

/// The lines of a section to display: all of them, or all but the heading
/// line when `skip_heading` is set.
pub fn section_display_lines(section: &Vec<String>, skip_heading: bool) -> (r: Vec<String>)
    ensures
        r.deep_view() == if skip_heading && section.deep_view().len() > 0 {
            section.deep_view().drop_first()
        } else {
            section.deep_view()
        },
{
    let mut r: Vec<String> = Vec::new();
    let start: usize = if skip_heading && section.len() > 0 {
        1
    } else {
        0
    };
    let mut i: usize = start;
    while i < section.len()
        invariant
            start <= i <= section@.len(),
            r@.len() == i - start,
            forall|j: int| 0 <= j < r@.len() ==> #[trigger] r@[j]@ == section@[start + j]@,
        decreases section@.len() - i,
    {
        let line = section[i].clone();
        r.push(line);
        i = i + 1;
    }
    proof {
        if start == 1 {
            assert(r.deep_view() =~~= section.deep_view().drop_first());
        } else {
            assert(r.deep_view() =~~= section.deep_view());
        }
    }
    r
}

/// `section` occurs in `lines` as one contiguous block.
pub open spec fn is_contiguous_block(section: Seq<Seq<char>>, lines: Seq<Seq<char>>) -> bool {
    exists|i: int|
        0 <= i && i + section.len() <= lines.len() && section == #[trigger] lines.subrange(
            i,
            i + section.len(),
        )
}

/// `bounds` places every section of `sections` within `lines`: section `k`
/// is the block `[bounds[k].0, bounds[k].1)`, and consecutive blocks do not
/// overlap — each begins no earlier than the previous one ends.
pub open spec fn is_ordered_layout(
    sections: Seq<Seq<Seq<char>>>,
    bounds: Seq<(int, int)>,
    lines: Seq<Seq<char>>,
) -> bool {
    &&& bounds.len() == sections.len()
    &&& forall|k: int|
        0 <= k < sections.len() ==> 0 <= (#[trigger] bounds[k]).0 <= bounds[k].1 <= lines.len()
            && sections[k] == lines.subrange(bounds[k].0, bounds[k].1)
    &&& forall|k: int| 0 < k < sections.len() ==> (#[trigger] bounds[k]).0 >= bounds[k - 1].1
}

/// The layout invariant of a run: the completed sections sit in the lines
/// read so far as ordered, non-overlapping blocks, and the open section is
/// the block that ends exactly at the reading position.
spec fn run_layout_ok(
    bounds: Seq<(int, int)>,
    lines: Seq<Seq<char>>,
    pattern: Seq<char>,
    case_sensitive: bool,
) -> bool {
    let st = spec_run(lines, pattern, case_sensitive);
    &&& bounds.len() == st.completed.len() + if st.within {
        1int
    } else {
        0int
    }
    &&& forall|k: int|
        0 <= k < st.completed.len() ==> 0 <= (#[trigger] bounds[k]).0 <= bounds[k].1
            <= lines.len() && st.completed[k] == lines.subrange(bounds[k].0, bounds[k].1)
    &&& forall|k: int| 0 < k < bounds.len() ==> (#[trigger] bounds[k]).0 >= bounds[k - 1].1
    &&& st.within ==> 0 <= bounds.last().0 <= bounds.last().1 && bounds.last().1 == lines.len()
        && st.current == lines.subrange(bounds.last().0, lines.len() as int)
}

/// Some layout witnesses every run: by induction over the lines.
#[verifier::rlimit(60)]
proof fn lemma_run_layout(lines: Seq<Seq<char>>, pattern: Seq<char>, case_sensitive: bool)
    ensures
        exists|bounds: Seq<(int, int)>|
            #[trigger] run_layout_ok(bounds, lines, pattern, case_sensitive),
    decreases lines.len(),
{
    let st = spec_run(lines, pattern, case_sensitive);
    if lines.len() == 0 {
        assert(run_layout_ok(Seq::<(int, int)>::empty(), lines, pattern, case_sensitive));
    } else {
        let prev = lines.drop_last();
        let line = lines.last();
        let st0 = spec_run(prev, pattern, case_sensitive);
        let n0 = prev.len() as int;
        let n = lines.len() as int;
        lemma_run_layout(prev, pattern, case_sensitive);
        let bounds0 = choose|b: Seq<(int, int)>|
            #[trigger] run_layout_ok(b, prev, pattern, case_sensitive);

        assert forall|a: int, b: int| 0 <= a <= b <= n0 implies #[trigger] lines.subrange(a, b)
            == prev.subrange(a, b) by {
            assert(lines.subrange(a, b) =~= prev.subrange(a, b));
        }

        let fence = spec_is_fence(line);
        let in1 = if fence {
            !st0.in_code
        } else {
            st0.in_code
        };
        let closes = !in1 && spec_is_heading(line) && st0.within && spec_heading_depth(line)
            <= st0.depth;
        let opens = !in1 && spec_is_heading(line) && (!st0.within || closes) && regex_found(
            pattern,
            case_sensitive,
            spec_heading_content(line),
        );
        assert(st.completed == if closes {
            st0.completed.push(st0.current)
        } else {
            st0.completed
        });
        assert(st.within == ((st0.within && !closes) || opens));

        let bounds = if opens {
            bounds0.push((n0, n))
        } else if st0.within && !closes {
            bounds0.update(bounds0.len() - 1, (bounds0.last().0, n))
        } else {
            bounds0
        };

        assert forall|k: int| 0 <= k < st.completed.len() implies 0 <= (#[trigger] bounds[k]).0
            <= bounds[k].1 <= n && st.completed[k] == lines.subrange(
            bounds[k].0,
            bounds[k].1,
        ) by {
            assert(bounds[k] == bounds0[k]);
            if k < st0.completed.len() {
                assert(st.completed[k] == st0.completed[k]);
            } else {
                assert(closes && k == st0.completed.len());
                assert(st.completed[k] == st0.current);
                assert(bounds0[k] == bounds0.last());
            }
        }
        assert forall|k: int| 0 < k < bounds.len() implies (#[trigger] bounds[k]).0 >= bounds[k
            - 1].1 by {
            if k < bounds0.len() {
                assert(bounds0[k].0 >= bounds0[k - 1].1);
                assert(bounds[k - 1] == bounds0[k - 1] || (k - 1 == bounds0.len() - 1 && bounds[k
                    - 1].1 == bounds0[k - 1].1));
            } else {
                assert(opens && bounds[k] == (n0, n) && bounds[k - 1] == bounds0[k - 1]);
                if st0.within {
                    assert(bounds0[k - 1].1 == n0);
                } else {
                    assert(k - 1 < st0.completed.len());
                    assert(bounds0[k - 1].1 <= n0);
                }
            }
        }
        if st.within {
            if opens {
                assert(st.current == Seq::<Seq<char>>::empty().push(line));
                assert(st.current =~= lines.subrange(n0, n));
                assert(bounds.last() == (n0, n));
            } else {
                assert(st0.within && !closes);
                assert(st.current == st0.current.push(line));
                assert(st.current =~= lines.subrange(bounds0.last().0, n));
                assert(bounds.last() == (bounds0.last().0, n));
            }
        }
        assert(run_layout_ok(bounds, lines, pattern, case_sensitive));
    }
}

/// The extracted sections appear in document order and do not overlap:
/// some list of block boundaries, one pair per section, places each section
/// in the source, each block beginning no earlier than the previous one
/// ends.
pub proof fn lemma_sections_ordered(
    lines: Seq<Seq<char>>,
    pattern: Seq<char>,
    case_sensitive: bool,
)
    ensures
        exists|bounds: Seq<(int, int)>|
            #[trigger] is_ordered_layout(
                spec_extract(lines, pattern, case_sensitive),
                bounds,
                lines,
            ),
{
    lemma_run_layout(lines, pattern, case_sensitive);
    let bounds = choose|b: Seq<(int, int)>|
        #[trigger] run_layout_ok(b, lines, pattern, case_sensitive);
    let st = spec_run(lines, pattern, case_sensitive);
    let sections = spec_extract(lines, pattern, case_sensitive);
    if st.within {
        assert(sections[st.completed.len() as int] == st.current);
    }
    assert(is_ordered_layout(sections, bounds, lines));
}

/// Every extracted section is one contiguous block of the source lines: its
/// lines appear in the source in the same order, with none omitted in
/// between.
pub proof fn lemma_sections_contiguous(
    lines: Seq<Seq<char>>,
    pattern: Seq<char>,
    case_sensitive: bool,
    k: int,
)
    requires
        0 <= k < spec_extract(lines, pattern, case_sensitive).len(),
    ensures
        is_contiguous_block(spec_extract(lines, pattern, case_sensitive)[k], lines),
{
    lemma_sections_ordered(lines, pattern, case_sensitive);
    let sections = spec_extract(lines, pattern, case_sensitive);
    let bounds = choose|b: Seq<(int, int)>| #[trigger] is_ordered_layout(sections, b, lines);
    let sec = sections[k];
    assert(sec == lines.subrange(bounds[k].0, bounds[k].0 + sec.len()));
}

/// The shape invariant of a run: outside a section the buffer is empty and
/// the active depth is the sentinel 0; inside one, the buffer holds at
/// least the heading line and the depth is a heading depth; every completed
/// section is nonempty.
proof fn lemma_run_shape(lines: Seq<Seq<char>>, pattern: Seq<char>, case_sensitive: bool)
    ensures
        ({
            let st = spec_run(lines, pattern, case_sensitive);
            &&& !st.within ==> st.current.len() == 0 && st.depth == 0
            &&& st.within ==> st.current.len() >= 1 && 1 <= st.depth <= 6
            &&& forall|k: int| 0 <= k < st.completed.len() ==> #[trigger] st.completed[k].len() >= 1
        }),
    decreases lines.len(),
{
    if lines.len() > 0 {
        lemma_run_shape(lines.drop_last(), pattern, case_sensitive);
    }
}

/// Every extracted section is nonempty: it contains at least its heading
/// line.
pub proof fn lemma_sections_nonempty(
    lines: Seq<Seq<char>>,
    pattern: Seq<char>,
    case_sensitive: bool,
    k: int,
)
    requires
        0 <= k < spec_extract(lines, pattern, case_sensitive).len(),
    ensures
        spec_extract(lines, pattern, case_sensitive)[k].len() >= 1,
{
    lemma_run_shape(lines, pattern, case_sensitive);
}

/// End of input is itself a boundary: a section still open after the last
/// line becomes the final extracted section; it is never dropped.
pub proof fn lemma_end_of_input_closes(
    lines: Seq<Seq<char>>,
    pattern: Seq<char>,
    case_sensitive: bool,
)
    requires
        spec_run(lines, pattern, case_sensitive).within,
    ensures
        spec_extract(lines, pattern, case_sensitive) == spec_run(
            lines,
            pattern,
            case_sensitive,
        ).completed.push(spec_run(lines, pattern, case_sensitive).current),
{
}

/// Extraction carries no state between runs: two results of the same
/// lines, pattern and case flag are identical.
pub proof fn lemma_extract_repeatable(
    r1: Seq<Seq<Seq<char>>>,
    r2: Seq<Seq<Seq<char>>>,
    lines: Seq<Seq<char>>,
    pattern: Seq<char>,
    case_sensitive: bool,
)
    requires
        r1 == spec_extract(lines, pattern, case_sensitive),
        r2 == spec_extract(lines, pattern, case_sensitive),
    ensures
        r1 == r2,
{
}

} // verus!
