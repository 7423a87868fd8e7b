//! Questions about text that the classification rules ask: whether one text
//! occurs inside another, begins or ends it, and what its lower-case form is.

use vstd::prelude::*;
use vstd::string::StrSliceExecFns;

verus! {

/// `pattern` occurs somewhere inside `text`, as a run of consecutive
/// characters.
pub open spec fn has_infix(text: Seq<char>, pattern: Seq<char>) -> bool {
    exists|at: int|
        0 <= at && at + pattern.len() <= text.len() && #[trigger] text.subrange(
            at,
            at + pattern.len(),
        ) == pattern
}

/// The lower-case form of a text, as `str::to_lowercase` computes it from
/// the Unicode character database.
pub uninterp spec fn lowercased(text: Seq<char>) -> Seq<char>;

/// The order of texts: character by character by code point, a proper
/// prefix before its extensions. This is the order of `str` and `String`.
pub open spec fn text_le(left: Seq<char>, right: Seq<char>) -> bool
    decreases left.len(),
{
    if left.len() == 0 {
        true
    } else if right.len() == 0 {
        false
    } else if left[0] != right[0] {
        (left[0] as u32) < (right[0] as u32)
    } else {
        text_le(left.drop_first(), right.drop_first())
    }
}

/// `str::contains` with a string pattern: whether the pattern matches a
/// sub-slice of the text.
#[verifier::external_body]
pub(crate) fn contains(text: &str, pattern: &str) -> (found: bool)
    ensures
        found == has_infix(text@, pattern@),
{
    text.contains(pattern)
}

/// `str::to_lowercase`: the lower-case equivalent of the text as a new
/// string. It depends on the text alone; which text it is for a given one
/// is not stated here.
#[verifier::external_body]
pub(crate) fn lowercase(text: &str) -> (lowered: String)
    ensures
        lowered@ == lowercased(text@),
{
    text.to_lowercase()
}

/// A text of the pattern's length holds the pattern only as itself.
pub proof fn lemma_infix_of_equal_length(text: Seq<char>, pattern: Seq<char>)
    requires
        text.len() == pattern.len(),
    ensures
        has_infix(text, pattern) <==> text == pattern,
{
    if has_infix(text, pattern) {
        let at = choose|at: int|
            0 <= at && at + pattern.len() <= text.len() && #[trigger] text.subrange(
                at,
                at + pattern.len(),
            ) == pattern;
        assert(text.subrange(0, text.len() as int) == text);
    }
    if text == pattern {
        assert(text.subrange(0int, 0int + pattern.len()) == pattern);
    }
}

/// Whether `text` begins with `pattern`.
pub fn starts_with(text: &str, pattern: &str) -> (found: bool)
    ensures
        found == pattern@.is_prefix_of(text@),
{
    let length = text.unicode_len();
    let wanted = pattern.unicode_len();
    if wanted > length {
        return false;
    }
    let head = text.substring_char(0, wanted);
    proof {
        lemma_infix_of_equal_length(head@, pattern@);
    }
    contains(head, pattern)
}

/// Whether `text` ends with `pattern`.
pub fn ends_with(text: &str, pattern: &str) -> (found: bool)
    ensures
        found == pattern@.is_suffix_of(text@),
{
    let length = text.unicode_len();
    let wanted = pattern.unicode_len();
    if wanted > length {
        return false;
    }
    let tail = text.substring_char(length - wanted, length);
    proof {
        lemma_infix_of_equal_length(tail@, pattern@);
    }
    contains(tail, pattern)
}

/// Whether two texts are the same.
pub fn same_text(left: &str, right: &str) -> (same: bool)
    ensures
        same == (left@ == right@),
{
    if left.unicode_len() != right.unicode_len() {
        return false;
    }
    proof {
        lemma_infix_of_equal_length(left@, right@);
    }
    contains(left, right)
}

} // verus!
