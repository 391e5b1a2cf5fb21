//! The program's identification and usage text, as pure functions.

use vstd::prelude::*;

verus! {

/// The program's name.
pub open spec fn name_text() -> Seq<char> {
    "tinymd"@
}

/// The program's version.
pub open spec fn version_text() -> Seq<char> {
    "0.1.0"@
}

/// The program's one-line description.
pub open spec fn description_text() -> Seq<char> {
    "a tiny markdown compiler"@
}

/// The identification line: name, version in parentheses, and description.
pub open spec fn title_text() -> Seq<char> {
    name_text() + " (v"@ + version_text() + "), "@ + description_text()
}

/// The usage line shown when the program is not invoked with exactly one
/// argument.
pub open spec fn usage_line() -> Seq<char> {
    "Usage: tinymd [markdown file].md"@
}

/// Builds the identification line from the program's name, version and
/// description.
pub fn get_title() -> (title: String)
    ensures
        title@ == title_text(),
{
    let mut title = String::from_str("tinymd");
    title.append(" (v");
    title.append("0.1.0");
    title.append("), ");
    title.append("a tiny markdown compiler");
    assert(title@ =~= title_text());
    title
}

/// Builds the usage line.
pub fn usage_text() -> (usage: String)
    ensures
        usage@ == usage_line(),
{
    String::from_str("Usage: tinymd [markdown file].md")
}

} // verus!
