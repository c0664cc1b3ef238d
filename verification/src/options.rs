//! Caller-facing options for one extraction run, mirroring the command
//! line: which sections to show, how to match, and where the document
//! comes from.

use vstd::prelude::*;

verus! {

/// Options for one extraction run.
pub struct Opts {
    /// Show every matching section rather than only the first.
    pub all: bool,
    /// Match the pattern case-sensitively.
    pub case_sensitive: bool,
    /// Leave out the matched heading line when a section is shown.
    pub no_print_matched_heading: bool,
    /// Pattern to match against heading text.
    pub pattern: String,
    /// Path of the document to read.
    pub path: Option<String>,
    /// Read the document from standard input instead of a file.
    pub stdin: bool,
}

impl Opts {
    /// Exactly one input source is named: a path, or standard input.
    pub open spec fn spec_input_is_valid(self) -> bool {
        self.path is Some <==> !self.stdin
    }

    /// Whether the options name exactly one input source.
    pub fn input_is_valid(&self) -> (r: bool)
        ensures
            r == self.spec_input_is_valid(),
    {
        match (&self.path, self.stdin) {
            (Some(_), false) => true,
            (None, true) => true,
            _ => false,
        }
    }
}

} // verus!
