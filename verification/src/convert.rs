//! The line classifier and tag-state machine.
//!
//! Each input line is classified as a heading (first character `#`) or a
//! paragraph (anything else, the empty line included) and turned into one
//! HTML fragment. Two flags carry the open/close state of block elements
//! across lines; every fragment closes whatever it opened, so both flags are
//! clear again after each line. The one fragment that is never emitted is
//! the degenerate empty paragraph, produced by an empty line.

use vstd::prelude::*;

verus! {

/// The opening tag of a paragraph block.
pub open spec fn open_p_tag() -> Seq<char> {
    seq!['<', 'p', '>']
}

/// The closing tag of a paragraph block, with its trailing newline.
pub open spec fn close_p_tag() -> Seq<char> {
    seq!['<', '/', 'p', '>', '\n']
}

/// The opening tag of a heading block, with its leading newline.
pub open spec fn open_h1_tag() -> Seq<char> {
    seq!['\n', '<', 'h', '1', '>']
}

/// The closing tag of a heading block, with its trailing newline.
pub open spec fn close_h1_tag() -> Seq<char> {
    seq!['<', '/', 'h', '1', '>', '\n']
}

/// The degenerate empty-paragraph fragment: an opening paragraph tag
/// immediately followed by the closing one. It is dropped from the output.
pub open spec fn empty_paragraph() -> Seq<char> {
    open_p_tag() + close_p_tag()
}

/// A line is classified as a heading exactly when its first character is `#`.
pub open spec fn is_heading_line(line: Seq<char>) -> bool {
    line.len() > 0 && line[0] == '#'
}

/// The text of a heading line: the line with its first two characters (the
/// marker and the separator) dropped. The drop is a fixed-width cut of two
/// characters, saturating to the empty string on a bare `#` line.
pub open spec fn heading_text(line: Seq<char>) -> Seq<char> {
    if line.len() >= 2 {
        line.subrange(2, line.len() as int)
    } else {
        Seq::<char>::empty()
    }
}

/// The fragment one line produces, given whether a paragraph or a heading
/// block is open when the line is reached.
///
/// A heading line first closes an open paragraph, then an open heading, and
/// wraps its extracted text in heading tags. Any other line closes an open
/// heading, opens a paragraph unless one is already open, and appends the
/// line verbatim; the paragraph is closed at the end of the fragment.
pub open spec fn line_fragment(line: Seq<char>, paragraph_open: bool, heading_open: bool) -> Seq<
    char,
> {
    if is_heading_line(line) {
        (if paragraph_open {
            close_p_tag()
        } else {
            Seq::<char>::empty()
        }) + (if heading_open {
            close_h1_tag()
        } else {
            Seq::<char>::empty()
        }) + open_h1_tag() + heading_text(line) + close_h1_tag()
    } else {
        (if heading_open {
            close_h1_tag()
        } else {
            Seq::<char>::empty()
        }) + (if paragraph_open {
            Seq::<char>::empty()
        } else {
            open_p_tag()
        }) + line + close_p_tag()
    }
}

/// Whether a line's fragment, built with no block open, is the degenerate
/// empty paragraph and is therefore dropped from the output.
pub open spec fn elided(line: Seq<char>) -> bool {
    line_fragment(line, false, false) == empty_paragraph()
}

/// The fragments of a whole run: one per input line, in input order, with
/// the degenerate empty-paragraph fragments dropped. Both state flags are
/// clear when each line is reached, since every fragment closes what it
/// opened.
pub open spec fn convert(lines: Seq<Seq<char>>) -> Seq<Seq<char>>
    decreases lines.len(),
{
    if lines.len() == 0 {
        Seq::<Seq<char>>::empty()
    } else {
        let prior = convert(lines.drop_last());
        if elided(lines.last()) {
            prior
        } else {
            prior.push(line_fragment(lines.last(), false, false))
        }
    }
}

/// The open/close bookkeeping carried from one line to the next: whether a
/// paragraph or a heading block is currently open and awaiting its closing
/// tag. At most one flag is set right after a line has been processed; in
/// fact both are clear, since every fragment closes the block it opened.
pub struct TagState {
    /// Whether a paragraph block is open.
    pub paragraph_open: bool,
    /// Whether a heading block is open.
    pub heading_open: bool,
}

impl TagState {
    /// The state at the start of a run: no block is open.
    pub fn new() -> (state: TagState)
        ensures
            !state.paragraph_open,
            !state.heading_open,
    {
        TagState { paragraph_open: false, heading_open: false }
    }

    /// Classifies one line and builds its fragment, updating the open/close
    /// flags. Whatever block the line opens is closed again within the same
    /// fragment, so both flags are clear afterwards.
    pub fn process_line(&mut self, line: &str) -> (fragment: String)
        ensures
            fragment@ == line_fragment(line@, old(self).paragraph_open, old(self).heading_open),
            !final(self).paragraph_open,
            !final(self).heading_open,
    {
        proof {
            reveal_strlit("<p>");
            reveal_strlit("</p>\n");
            reveal_strlit("\n<h1>");
            reveal_strlit("</h1>\n");
            reveal_strlit("");
        }
        assert("<p>"@ =~= open_p_tag());
        assert("</p>\n"@ =~= close_p_tag());
        assert("\n<h1>"@ =~= open_h1_tag());
        assert("</h1>\n"@ =~= close_h1_tag());
        assert(""@ =~= Seq::<char>::empty());

        let ghost paragraph_was_open = self.paragraph_open;
        let ghost heading_was_open = self.heading_open;
        let length = line.unicode_len();
        let mut fragment = String::new();
        if length > 0 && line.get_char(0) == '#' {
            if self.paragraph_open {
                self.paragraph_open = false;
                fragment.append("</p>\n");
            }
            if self.heading_open {
                self.heading_open = false;
                fragment.append("</h1>\n");
            }
            self.heading_open = true;
            fragment.append("\n<h1>");
            if length >= 2 {
                let text = line.substring_char(2, length);
                fragment.append(text);
            }
        } else {
            if self.heading_open {
                self.heading_open = false;
                fragment.append("</h1>\n");
            }
            if !self.paragraph_open {
                self.paragraph_open = true;
                fragment.append("<p>");
            }
            fragment.append(line);
        }
        if self.paragraph_open {
            self.paragraph_open = false;
            fragment.append("</p>\n");
        }
        if self.heading_open {
            self.heading_open = false;
            fragment.append("</h1>\n");
        }
        assert(fragment@ =~= line_fragment(line@, paragraph_was_open, heading_was_open));
        fragment
    }
}

/// Converts the input lines, in order, to the sequence of HTML fragments that
/// make up the output document: one fragment per line, with the degenerate
/// empty-paragraph fragments dropped.
pub fn convert_to_html(lines: &Vec<String>) -> (fragments: Vec<String>)
    ensures
        fragments.deep_view() == convert(lines.deep_view()),
{
    proof {
        reveal_strlit("<p></p>\n");
        reveal_strlit("<p>");
        reveal_strlit("</p>\n");
    }
    assert("<p></p>\n"@ =~= empty_paragraph());

    let degenerate = String::from_str("<p></p>\n");
    let mut state = TagState::new();
    let mut fragments: Vec<String> = Vec::new();
    let mut index: usize = 0;
    while index < lines.len()
        invariant
            index <= lines.len(),
            !state.paragraph_open,
            !state.heading_open,
            degenerate@ == empty_paragraph(),
            fragments.deep_view() == convert(lines.deep_view().take(index as int)),
        decreases lines.len() - index,
    {
        let ghost lines_view = lines.deep_view();
        let ghost previous = fragments.deep_view();
        let fragment = state.process_line(lines[index].as_str());
        assert(lines_view[index as int] == lines@[index as int]@);
        if !fragment.eq(&degenerate) {
            fragments.push(fragment);
        }
        proof {
            assert(lines_view.take(index + 1).drop_last() =~= lines_view.take(index as int));
            assert(lines_view.take(index + 1).last() == lines_view[index as int]);
            if !elided(lines_view[index as int]) {
                assert(fragments.deep_view() =~= previous.push(
                    line_fragment(lines_view[index as int], false, false),
                ));
            }
        }
        index = index + 1;
    }
    assert(lines.deep_view().take(lines@.len() as int) =~= lines.deep_view());
    fragments
}

/// How many of the given lines are elided: the empty-paragraph lines whose
/// fragments are dropped from the output.
pub open spec fn elided_count(lines: Seq<Seq<char>>) -> nat
    decreases lines.len(),
{
    if lines.len() == 0 {
        0
    } else {
        elided_count(lines.drop_last()) + (if elided(lines.last()) {
            1nat
        } else {
            0nat
        })
    }
}

/// Law: every input line yields at most one fragment. The number of emitted
/// fragments is the number of input lines minus the number of elided
/// (degenerate empty-paragraph) lines, and so never exceeds it.
pub proof fn lemma_fragment_count(lines: Seq<Seq<char>>)
    ensures
        convert(lines).len() + elided_count(lines) == lines.len(),
        convert(lines).len() <= lines.len(),
    decreases lines.len(),
{
    if lines.len() > 0 {
        lemma_fragment_count(lines.drop_last());
    }
}

/// Law: a heading line — the marker, a separator, then the heading text —
/// yields exactly an opening heading tag, the heading text, and a closing
/// heading tag, whatever the text; in particular it holds no paragraph tags.
pub proof fn lemma_heading_line_fragment(line: Seq<char>)
    requires
        line.len() >= 2,
        line[0] == '#',
        line[1] == ' ',
    ensures
        line_fragment(line, false, false) == open_h1_tag() + line.subrange(
            2,
            line.len() as int,
        ) + close_h1_tag(),
{
    assert(line_fragment(line, false, false) =~= open_h1_tag() + line.subrange(
        2,
        line.len() as int,
    ) + close_h1_tag());
}

/// Law: a non-empty line that does not begin with the heading marker yields
/// exactly an opening paragraph tag, the verbatim line, and a closing
/// paragraph tag — and that fragment is never elided.
pub proof fn lemma_paragraph_line_fragment(line: Seq<char>)
    requires
        line.len() > 0,
        line[0] != '#',
    ensures
        line_fragment(line, false, false) == open_p_tag() + line + close_p_tag(),
        !elided(line),
{
    assert(line_fragment(line, false, false) =~= open_p_tag() + line + close_p_tag());
    assert(line_fragment(line, false, false).len() == open_p_tag().len() + line.len()
        + close_p_tag().len());
}

/// Law: an empty line contributes nothing to the output; appending one to
/// any input leaves the emitted fragments unchanged.
pub proof fn lemma_empty_line_elided(lines: Seq<Seq<char>>)
    ensures
        elided(Seq::<char>::empty()),
        convert(lines.push(Seq::<char>::empty())) == convert(lines),
{
    assert(line_fragment(Seq::<char>::empty(), false, false) =~= empty_paragraph());
    assert(lines.push(Seq::<char>::empty()).drop_last() =~= lines);
}

/// Law: conversion distributes over concatenation of inputs; the fragments
/// of two runs laid end to end are the fragments of the combined run.
pub proof fn lemma_convert_append(first: Seq<Seq<char>>, second: Seq<Seq<char>>)
    ensures
        convert(first + second) == convert(first) + convert(second),
    decreases second.len(),
{
    if second.len() == 0 {
        assert(first + second =~= first);
        assert(convert(first) + convert(second) =~= convert(first));
    } else {
        lemma_convert_append(first, second.drop_last());
        assert((first + second).drop_last() =~= first + second.drop_last());
        assert((first + second).last() == second.last());
        if !elided(second.last()) {
            assert(convert(first) + convert(second) =~= (convert(first) + convert(
                second.drop_last(),
            )).push(line_fragment(second.last(), false, false)));
        }
    }
}

/// Law: the fragment a line contributes is determined by the line alone.
/// Classification is order-independent: whatever lines precede it, a line
/// that is not elided contributes the same fragment, in its input position.
pub proof fn lemma_line_fragment_position_independent(
    before_one: Seq<Seq<char>>,
    before_two: Seq<Seq<char>>,
    line: Seq<char>,
)
    requires
        !elided(line),
    ensures
        convert(before_one.push(line)).last() == line_fragment(line, false, false),
        convert(before_one.push(line)).last() == convert(before_two.push(line)).last(),
{
    assert(before_one.push(line).drop_last() =~= before_one);
    assert(before_two.push(line).drop_last() =~= before_two);
}

} // verus!
