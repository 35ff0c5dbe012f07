//! Conversions between strings and character sequences, and the calls into
//! the Unicode segmentation, normalization and transliteration crates.

use vstd::prelude::*;
use crate::lines::lf_clean;
use unicode_normalization::UnicodeNormalization;
use unicode_segmentation::UnicodeSegmentation;

verus! {

broadcast use vstd::string::axiom_spec_iter;

/// Extended grapheme clusters of a text, in order, as `unicode-segmentation`
/// splits it.
pub uninterp spec fn grapheme_clusters(text: Seq<char>) -> Seq<Seq<char>>;

/// Canonical decomposition (NFD) of a text, as `unicode-normalization` computes it.
pub uninterp spec fn nfd_of(text: Seq<char>) -> Seq<char>;

/// Canonical composition (NFC) of a text, as `unicode-normalization` computes it.
pub uninterp spec fn nfc_of(text: Seq<char>) -> Seq<char>;

/// Compatibility decomposition (NFKD) of a text, as `unicode-normalization`
/// computes it.
pub uninterp spec fn nfkd_of(text: Seq<char>) -> Seq<char>;

/// Compatibility composition (NFKC) of a text, as `unicode-normalization`
/// computes it.
pub uninterp spec fn nfkc_of(text: Seq<char>) -> Seq<char>;

/// The ASCII transliteration `deunicode` gives a character, if it has one.
pub uninterp spec fn deunicode_of(c: char) -> Option<Seq<char>>;

/// The characters of a string slice, in order.
pub(crate) fn chars_of(s: &str) -> (r: Vec<char>)
    ensures
        r@ == s@,
{
    let mut r: Vec<char> = Vec::new();
    for c in it: s.chars()
        invariant
            r@.len() == it.index(),
            forall|j: int| 0 <= j < r@.len() ==> r@[j] == it.seq()[j],
    {
        r.push(c);
    }
    assert(r@ =~= s@);
    r
}

/// A string made of the given characters, in order (std `FromIterator<char>`).
#[verifier::external_body]
pub(crate) fn string_from_chars(v: &Vec<char>) -> (r: String)
    ensures
        r@ == v@,
{
    v.iter().collect()
}

/// Splits a text into extended grapheme clusters with
/// `UnicodeSegmentation::graphemes(.., true)`; the contract names the result
/// and states that the clusters, concatenated, give back the text (the
/// iterator yields consecutive slices from the start to the end).
#[verifier::external_body]
pub(crate) fn graphemes(text: &Vec<char>) -> (r: Vec<Vec<char>>)
    ensures
        r.len() == grapheme_clusters(text@).len(),
        forall|i: int| 0 <= i < r.len() ==> #[trigger] r[i]@ == grapheme_clusters(text@)[i],
        r@.map_values(|v: Vec<char>| v@).flatten() == text@,
{
    let s: String = text.iter().collect();
    let mut out: Vec<Vec<char>> = Vec::new();
    for g in UnicodeSegmentation::graphemes(s.as_str(), true) {
        out.push(g.chars().collect());
    }
    out
}

/// `UnicodeNormalization::nfd` over the characters; the contract names the result.
#[verifier::external_body]
pub(crate) fn nfd(text: &Vec<char>) -> (r: Vec<char>)
    ensures
        r@ == nfd_of(text@),
{
    text.iter().copied().nfd().collect()
}

/// `UnicodeNormalization::nfc` over the characters; the contract names the result.
#[verifier::external_body]
pub(crate) fn nfc(text: &Vec<char>) -> (r: Vec<char>)
    ensures
        r@ == nfc_of(text@),
{
    text.iter().copied().nfc().collect()
}

/// `UnicodeNormalization::nfkd` over the characters; the contract names the
/// result and states that it introduces no CR, NEL, LS or PS: no entry of the
/// crate's decomposition tables holds one, and characters without a
/// decomposition pass through, so each such character of the result is one
/// of the input.
#[verifier::external_body]
pub(crate) fn nfkd(text: &Vec<char>) -> (r: Vec<char>)
    ensures
        r@ == nfkd_of(text@),
        forall|i: int| 0 <= i < r@.len() && !lf_clean(#[trigger] r@[i]) ==> text@.contains(r@[i]),
{
    text.iter().copied().nfkd().collect()
}

/// `UnicodeNormalization::nfkc` over the characters; the contract names the result.
#[verifier::external_body]
pub(crate) fn nfkc(text: &Vec<char>) -> (r: Vec<char>)
    ensures
        r@ == nfkc_of(text@),
{
    text.iter().copied().nfkc().collect()
}

/// `deunicode::deunicode_char`, its `&'static str` answer as characters; the
/// contract names the result and states what the crate documents and its
/// data tables show of every answer: it consists of LF and printable ASCII
/// (U+0020 to U+007E).
#[verifier::external_body]
pub(crate) fn deunicode(c: char) -> (r: Option<Vec<char>>)
    ensures
        match r {
            Some(v) => deunicode_of(c) == Some(v@),
            None => deunicode_of(c) is None,
        },
        r matches Some(v) ==> forall|i: int|
            0 <= i < v@.len() ==> #[trigger] v@[i] == '\n' || (' ' <= v@[i] && v@[i] <= '~'),
{
    match deunicode::deunicode_char(c) {
        Some(s) => Some(s.chars().collect()),
        None => None,
    }
}

} // verus!
