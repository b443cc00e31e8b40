//! Text helpers shared by the note operations and the command output.

use vstd::prelude::*;

verus! {

/// The lowercase form of a text, as `str::to_lowercase` of the standard
/// library computes it (full Unicode lowercase mapping, independent of
/// locale). Its value is not spelled out here.
pub uninterp spec fn lowercase(s: Seq<char>) -> Seq<char>;

/// `needle` occurs in `hay` as a contiguous run of characters.
pub open spec fn is_substring(needle: Seq<char>, hay: Seq<char>) -> bool {
    exists|i: int|
        0 <= i && i + needle.len() <= hay.len() && #[trigger] hay.subrange(
            i,
            i + needle.len(),
        ) == needle
}

/// The character that stands for a single decimal digit.
pub open spec fn digit_char(d: nat) -> char
    recommends
        d < 10,
{
    seq!['0', '1', '2', '3', '4', '5', '6', '7', '8', '9'][d as int]
}

/// The decimal notation of a natural number, without leading zeros.
pub open spec fn decimal(n: nat) -> Seq<char>
    decreases n,
{
    if n < 10 {
        seq![digit_char(n)]
    } else {
        decimal(n / 10).push(digit_char(n % 10))
    }
}

/// Trusted: calls `str::to_lowercase`. The contract only gives the result
/// its name, `lowercase` of the argument; nothing is claimed of its value.
#[verifier::external_body]
pub(crate) fn lowercase_text(s: &str) -> (r: String)
    ensures
        r@ == lowercase(s@),
{
    s.to_lowercase()
}

/// Trusted: calls `str::contains` with a string pattern. The contract
/// claims that the result tells whether `needle` is a substring of `hay`.
#[verifier::external_body]
pub(crate) fn text_contains(hay: &str, needle: &str) -> (r: bool)
    ensures
        r == is_substring(needle@, hay@),
{
    hay.contains(needle)
}

/// Trusted: calls `to_string` on a `usize`. The contract claims that the
/// result is the number in decimal notation without leading zeros.
#[verifier::external_body]
pub(crate) fn decimal_text(n: usize) -> (r: String)
    ensures
        r@ == decimal(n as nat),
{
    n.to_string()
}

/// Whether a keyword matches a content once both were folded to lowercase.
pub open spec fn folded_match(folded_keyword: Seq<char>, folded_content: Seq<char>) -> bool {
    is_substring(folded_keyword, folded_content)
}

/// Whether a keyword matches a content, ignoring case.
pub open spec fn keyword_matches(keyword: Seq<char>, content: Seq<char>) -> bool {
    folded_match(lowercase(keyword), lowercase(content))
}

/// Decides a match between two texts that are already in lowercase.
pub fn matches_folded(folded_keyword: &str, folded_content: &str) -> (r: bool)
    ensures
        r == folded_match(folded_keyword@, folded_content@),
{
    text_contains(folded_content, folded_keyword)
}

/// Decides whether `keyword` occurs in `content`, ignoring case.
pub fn matches_keyword(keyword: &str, content: &str) -> (r: bool)
    ensures
        r == keyword_matches(keyword@, content@),
{
    let folded_keyword = lowercase_text(keyword);
    let folded_content = lowercase_text(content);
    matches_folded(folded_keyword.as_str(), folded_content.as_str())
}

/// The empty keyword matches every content.
pub proof fn lemma_empty_keyword_matches(content: Seq<char>)
    ensures
        folded_match(Seq::<char>::empty(), content),
{
    let none = Seq::<char>::empty();
    assert(content.subrange(0, 0int + none.len()) =~= none);
}

} // verus!
