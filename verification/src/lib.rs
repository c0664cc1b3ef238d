//! Extract sections of a Markdown document whose headings match a pattern.
//!
//! A section spans from a matching heading line through the last line before
//! the next heading of equal or shallower depth, or the end of the document.
//! Heading-like lines inside fenced code blocks are treated as plain text.

pub mod extract;
pub mod heading;
pub mod matcher;
pub mod options;
pub mod state;

pub use extract::extract_from_lines;
pub use extract::first_matching_section;
pub use extract::MarkdownSection;
