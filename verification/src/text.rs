//! Case-insensitive text matching, over a named lowercase form.
//!
//! Job and task names are matched case-insensitively. The lowercase form
//! of a string is Unicode case folding, which this crate does not spell
//! out: it names the result and states matches in terms of the name.

use vstd::prelude::*;

verus! {

/// The lowercase form of a character sequence, as `str::to_lowercase`
/// computes it; the result depends on the characters alone.
pub uninterp spec fn lower_of(s: Seq<char>) -> Seq<char>;

/// Relies on str::to_lowercase: the lowercase form of the string; an
/// empty string stays empty.
#[verifier::external_body]
pub(crate) fn to_lowercase(s: &str) -> (r: String)
    ensures
        r@ == lower_of(s@),
        s@.len() == 0 ==> r@.len() == 0,
{
    s.to_lowercase()
}

/// Relies on str::starts_with: true exactly when `p` is a leading
/// substring of `s`.
#[verifier::external_body]
pub(crate) fn starts_with_str(s: &str, p: &str) -> (r: bool)
    ensures
        r == (s@.len() >= p@.len() && s@.subrange(0, p@.len() as int) == p@),
{
    s.starts_with(p)
}

/// Whether two strings agree up to case.
pub fn eq_ignore_case(a: &str, b: &str) -> (r: bool)
    ensures
        r == (lower_of(a@) == lower_of(b@)),
{
    let la = to_lowercase(a);
    let lb = to_lowercase(b);
    la == lb
}

} // verus!
