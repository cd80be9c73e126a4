//! The one outside call the table renderer needs: stripping ANSI escape
//! sequences from a cell so that its visible width can be measured.

use vstd::prelude::*;

verus! {

/// What `strip_ansi_escapes::strip_str` returns for a given text: the text
/// with its ANSI escape sequences removed. The result depends on the
/// characters alone.
pub uninterp spec fn stripped_of(s: Seq<char>) -> Seq<char>;

/// Relies on `strip_ansi_escapes::strip_str`: it feeds the text through a
/// terminal-escape parser and keeps only the printable characters and
/// linefeeds, so the result is a subsequence of the input — in particular
/// never longer than it.
#[verifier::external_body]
pub(crate) fn strip_codes(s: &str) -> (r: String)
    ensures
        r@ == stripped_of(s@),
        r@.len() <= s@.len(),
{
    strip_ansi_escapes::strip_str(s)
}

} // verus!
