//! The extraction state machine.
//!
//! One [`State`] value lives for one extraction run. Each input line drives
//! one transition: a fence marker line toggles the code-block flag; outside
//! code blocks a heading line may close the open section and may open a new
//! one; finally, while a section is open, the raw line is appended to it.

use vstd::prelude::*;
use crate::heading::spec_heading_content;
use crate::heading::spec_heading_depth;
use crate::heading::spec_is_heading;
use crate::heading::try_parse_heading;
use crate::matcher::regex_found;
use crate::matcher::Matcher;

verus! {

/// Whether a line toggles the fenced-code state: it begins with three
/// backticks.
pub open spec fn spec_is_fence(line: Seq<char>) -> bool {
    line.len() >= 3 && line[0] == '`' && line[1] == '`' && line[2] == '`'
}

/// The state of one extraction run, as mathematical values.
#[verifier::ext_equal]
pub struct SpecState {
    /// Whether the current position is inside a fenced code block.
    pub in_code: bool,
    /// Whether a matched section is currently being accumulated.
    pub within: bool,
    /// Depth of the heading that opened the current section; 0 outside one.
    pub depth: int,
    /// Lines of the in-progress section; empty outside one.
    pub current: Seq<Seq<char>>,
    /// Completed sections, in document order.
    pub completed: Seq<Seq<Seq<char>>>,
}

/// The state a run starts from: outside any code block or section.
pub open spec fn spec_init() -> SpecState {
    SpecState {
        in_code: false,
        within: false,
        depth: 0,
        current: Seq::empty(),
        completed: Seq::empty(),
    }
}

/// One transition of the machine: fence toggle first, then — outside code
/// blocks — closing at a heading of depth no greater than the open
/// section's and opening at a heading whose text the pattern matches, and
/// last, accumulation of the raw line while a section is open.
pub open spec fn spec_step(
    st: SpecState,
    line: Seq<char>,
    pattern: Seq<char>,
    case_sensitive: bool,
) -> SpecState {
    let toggled = if spec_is_fence(line) {
        !st.in_code
    } else {
        st.in_code
    };
    let st1 = SpecState { in_code: toggled, ..st };
    let st2 = if !st1.in_code && spec_is_heading(line) && st1.within && spec_heading_depth(line)
        <= st1.depth {
        SpecState {
            within: false,
            depth: 0,
            current: Seq::empty(),
            completed: st1.completed.push(st1.current),
            ..st1
        }
    } else {
        st1
    };
    let st3 = if !st2.in_code && spec_is_heading(line) && !st2.within && regex_found(
        pattern,
        case_sensitive,
        spec_heading_content(line),
    ) {
        SpecState { within: true, depth: spec_heading_depth(line), current: Seq::empty(), ..st2 }
    } else {
        st2
    };
    if st3.within {
        SpecState { current: st3.current.push(line), ..st3 }
    } else {
        st3
    }
}

/// Whether a line begins with three backticks, so toggles code-block state.
pub fn is_fence_line(line: &str) -> (r: bool)
    ensures
        r == spec_is_fence(line@),
{
    let n: usize = line.unicode_len();
    if n < 3 {
        return false;
    }
    line.get_char(0) == '`' && line.get_char(1) == '`' && line.get_char(2) == '`'
}

/// The running state of one extraction.
pub struct State {
    /// Whether the current position is inside a fenced code block.
    pub is_inside_code_block: bool,
    /// Whether a matched section is currently being accumulated.
    pub is_within_matched_section: bool,
    /// Depth of the heading that opened the current section; 0 outside one.
    pub depth: usize,
    /// Lines of the in-progress section; empty outside one.
    pub current: Vec<String>,
    /// Completed sections, in document order.
    pub completed: Vec<Vec<String>>,
}

impl View for State {
    type V = SpecState;

    open spec fn view(&self) -> SpecState {
        SpecState {
            in_code: self.is_inside_code_block,
            within: self.is_within_matched_section,
            depth: self.depth as int,
            current: self.current.deep_view(),
            completed: self.completed.deep_view(),
        }
    }
}

impl State {
    /// A fresh state for a new run.
    pub fn new() -> (r: State)
        ensures
            r@ == spec_init(),
    {
        let r = State {
            is_inside_code_block: false,
            is_within_matched_section: false,
            depth: 0,
            current: Vec::new(),
            completed: Vec::new(),
        };
        proof {
            assert(r@ =~~= spec_init());
        }
        r
    }

    /// Feed one line to the machine.
    pub fn step(&mut self, line: &String, matcher: &Matcher)
        ensures
            final(self)@ == spec_step(
                old(self)@,
                line@,
                matcher.spec_pattern(),
                matcher.spec_case_sensitive(),
            ),
    {
        if is_fence_line(line.as_str()) {
            self.is_inside_code_block = !self.is_inside_code_block;
        }
        if !self.is_inside_code_block {
            if let Some(h) = try_parse_heading(line.as_str()) {
                if self.is_within_matched_section && h.depth <= self.depth {
                    let mut finished: Vec<String> = Vec::new();
                    core::mem::swap(&mut finished, &mut self.current);
                    self.completed.push(finished);
                    self.is_within_matched_section = false;
                    self.depth = 0;
                }
                if !self.is_within_matched_section && matcher.is_match(h.content.as_str()) {
                    self.is_within_matched_section = true;
                    self.depth = h.depth;
                    self.current = Vec::new();
                }
            }
        }
        if self.is_within_matched_section {
            self.current.push(line.clone());
        }
        proof {
            assert(self@ =~~= spec_step(
                old(self)@,
                line@,
                matcher.spec_pattern(),
                matcher.spec_case_sensitive(),
            ));
        }
    }

    /// Close any open section and hand back the completed sections.
    pub fn finish(self) -> (r: Vec<Vec<String>>)
        ensures
            r.deep_view() == if self@.within {
                self@.completed.push(self@.current)
            } else {
                self@.completed
            },
    {
        let State { is_within_matched_section, current, completed: mut completed, .. } = self;
        if is_within_matched_section {
            completed.push(current);
            proof {
                assert(completed.deep_view() =~~= self@.completed.push(self@.current));
            }
        }
        completed
    }
}

/// A line inside a fenced code block is never interpreted as a heading:
/// while the code-block flag is set, a non-fence line — however much it
/// looks like a heading — closes nothing, opens nothing, and is captured
/// exactly when a section is already open.
pub proof fn lemma_code_block_suppresses_headings(
    st: SpecState,
    line: Seq<char>,
    pattern: Seq<char>,
    case_sensitive: bool,
)
    requires
        st.in_code,
        !spec_is_fence(line),
    ensures
        spec_step(st, line, pattern, case_sensitive) == (SpecState {
            current: if st.within {
                st.current.push(line)
            } else {
                st.current
            },
            ..st
        }),
{
    assert(spec_step(st, line, pattern, case_sensitive) =~~= (SpecState {
        current: if st.within {
            st.current.push(line)
        } else {
            st.current
        },
        ..st
    }));
}

/// A fence marker line toggles the code-block flag exactly once per
/// occurrence — also inside an already-open matched section — and any
/// other line leaves the flag as it stands.
pub proof fn lemma_fence_toggles_once(
    st: SpecState,
    line: Seq<char>,
    pattern: Seq<char>,
    case_sensitive: bool,
)
    ensures
        spec_is_fence(line) ==> spec_step(st, line, pattern, case_sensitive).in_code
            == !st.in_code,
        !spec_is_fence(line) ==> spec_step(st, line, pattern, case_sensitive).in_code
            == st.in_code,
{
}

/// A heading of depth no greater than the open section's closes it: the
/// section moves, exactly as accumulated, to the end of the completed list.
pub proof fn lemma_shallow_heading_closes(
    st: SpecState,
    line: Seq<char>,
    pattern: Seq<char>,
    case_sensitive: bool,
)
    requires
        st.within,
        !st.in_code,
        spec_is_heading(line),
        spec_heading_depth(line) <= st.depth,
    ensures
        spec_step(st, line, pattern, case_sensitive).completed == st.completed.push(st.current),
{
}

/// While a section is open, a line that is a fence marker, sits inside a
/// code block, is no heading, or is a heading deeper than the section's own
/// does not close it: the section stays open at its depth, nothing is
/// completed, and the line joins the section.
pub proof fn lemma_section_stays_open(
    st: SpecState,
    line: Seq<char>,
    pattern: Seq<char>,
    case_sensitive: bool,
)
    requires
        st.within,
        spec_is_fence(line) || st.in_code || !spec_is_heading(line) || spec_heading_depth(line)
            > st.depth,
    ensures
        spec_step(st, line, pattern, case_sensitive).within,
        spec_step(st, line, pattern, case_sensitive).depth == st.depth,
        spec_step(st, line, pattern, case_sensitive).completed == st.completed,
        spec_step(st, line, pattern, case_sensitive).current == st.current.push(line),
{
    if spec_is_fence(line) {
        assert(!spec_is_heading(line));
    }
}

/// A heading deeper than the open section's is nested content: it closes
/// nothing and is included in the section.
pub proof fn lemma_deeper_heading_is_content(
    st: SpecState,
    line: Seq<char>,
    pattern: Seq<char>,
    case_sensitive: bool,
)
    requires
        st.within,
        !st.in_code,
        spec_is_heading(line),
        spec_heading_depth(line) > st.depth,
    ensures
        spec_step(st, line, pattern, case_sensitive).within,
        spec_step(st, line, pattern, case_sensitive).depth == st.depth,
        spec_step(st, line, pattern, case_sensitive).completed == st.completed,
        spec_step(st, line, pattern, case_sensitive).current == st.current.push(line),
{
    lemma_section_stays_open(st, line, pattern, case_sensitive);
}

} // verus!
