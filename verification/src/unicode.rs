//! Lowercasing of text, which the standard library does by the Unicode
//! tables.
//!
//! Nothing in this file is proved.

use vstd::prelude::*;

verus! {

/// The lowercase form of a text, as `str::to_lowercase` returns it.
pub uninterp spec fn lowercase(text: Seq<char>) -> Seq<char>;

/// `str::to_lowercase`: the lowercase form of the text. It depends on the
/// text alone, not on a locale.
#[verifier::external_body]
pub(crate) fn to_lowercase(text: &str) -> (lowered: String)
    ensures
        lowered@ == lowercase(text@),
{
    text.to_lowercase()
}

} // verus!
