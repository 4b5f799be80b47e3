//! Shell-safe quoting of command arguments.

use vstd::prelude::*;

verus! {

/// The shell-quoted form of a string, as the quoting library produces it:
/// quoted and escaped exactly as far as the shell needs.
pub uninterp spec fn escaped_of(s: Seq<char>) -> Seq<char>;

/// Relies on snailquote::escape: the result depends on the characters alone.
#[verifier::external_body]
pub fn shell_escape(s: &str) -> (r: String)
    ensures
        r@ == escaped_of(s@),
{
    snailquote::escape(s).into_owned()
}

} // verus!
