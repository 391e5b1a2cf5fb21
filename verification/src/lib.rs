//! A line-oriented converter from a small markdown subset (level-one
//! headings marked by a leading `#`, and plain paragraphs) to HTML.
//!
//! The heart of the crate is the line classifier and tag-state machine in
//! [`convert`]: a single pass over the input lines that classifies each line
//! as heading or paragraph, tracks which block element is open, and emits one
//! self-contained HTML fragment per line (eliding the degenerate empty
//! paragraph). [`banner`] holds the program's identification text and
//! [`paths`] derives the output file name; reading and writing files is left
//! to the caller.

pub mod banner;
pub mod convert;
pub mod paths;
