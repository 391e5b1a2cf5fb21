//! Derivation of the output file name from the input file name.

use vstd::prelude::*;

verus! {

/// The output path: the input path with its final three characters (the
/// `.md` extension) replaced by `.html`.
pub open spec fn html_path(input: Seq<char>) -> Seq<char>
    recommends
        input.len() >= 3,
{
    input.subrange(0, input.len() - 3) + ".html"@
}

/// Replaces the final three characters of the input path (assumed to be its
/// `.md` extension) with `.html`.
pub fn output_filename(input: &str) -> (out: String)
    requires
        input@.len() >= 3,
    ensures
        out@ == html_path(input@),
{
    let length = input.unicode_len();
    let stem = input.substring_char(0, length - 3);
    let mut out = String::from_str(stem);
    out.append(".html");
    assert(out@ =~= html_path(input@));
    out
}

} // verus!
