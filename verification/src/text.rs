//! The few operations on text that the editor needs, over sequences of characters.

use vstd::prelude::*;

verus! {

/// Whether `text` ends with `suffix`.
pub open spec fn ends_with(text: Seq<char>, suffix: Seq<char>) -> bool {
    suffix.len() <= text.len() && text.skip(text.len() - suffix.len()) == suffix
}

/// Whether `pattern` stands in `text` at position `at`.
pub open spec fn occurs_at(text: Seq<char>, pattern: Seq<char>, at: int) -> bool {
    0 <= at && at + pattern.len() <= text.len() && text.subrange(at, at + pattern.len())
        == pattern
}

/// `text` with every occurrence of `from` replaced by `to`, found from the left and not
/// overlapping. An empty `from` occurs nowhere.
pub open spec fn replace_all(text: Seq<char>, from: Seq<char>, to: Seq<char>) -> Seq<char>
    decreases text.len(),
{
    if from.len() == 0 || text.len() == 0 {
        text
    } else if occurs_at(text, from, 0) {
        to + replace_all(text.skip(from.len() as int), from, to)
    } else {
        seq![text[0]] + replace_all(text.skip(1), from, to)
    }
}

/// `text` without its last character; the empty text stays empty.
pub open spec fn without_last(text: Seq<char>) -> Seq<char> {
    if text.len() == 0 {
        text
    } else {
        text.drop_last()
    }
}

/// Whether `pattern` stands in `text` at position `at`.
pub fn matches_at(text: &str, pattern: &str, at: usize) -> (found: bool)
    ensures
        found == occurs_at(text@, pattern@, at as int),
{
    let len = text.unicode_len();
    let width = pattern.unicode_len();
    if at > len || width > len - at {
        return false;
    }
    let mut i: usize = 0;
    while i < width
        invariant
            i <= width,
            width == pattern@.len(),
            len == text@.len(),
            at + width <= len,
            forall|j: int| 0 <= j < i ==> text@[at + j] == pattern@[j],
        decreases width - i,
    {
        if text.get_char(at + i) != pattern.get_char(i) {
            return false;
        }
        i = i + 1;
    }
    assert(text@.subrange(at as int, at + width) =~= pattern@);
    true
}

/// Whether two texts hold the same characters.
pub fn same_text(text: &str, other: &str) -> (same: bool)
    ensures
        same == (text@ == other@),
{
    if text.unicode_len() != other.unicode_len() {
        return false;
    }
    let same = matches_at(text, other, 0);
    assert(text@.subrange(0, text@.len() as int) =~= text@);
    same
}

/// Whether `text` ends with `suffix`.
pub fn has_suffix(text: &str, suffix: &str) -> (found: bool)
    ensures
        found == ends_with(text@, suffix@),
{
    let len = text.unicode_len();
    let width = suffix.unicode_len();
    if width > len {
        return false;
    }
    matches_at(text, suffix, len - width)
}

/// Replaces every occurrence of `from` in `text` by `to`.
pub fn replaced(text: &str, from: &str, to: &str) -> (out: String)
    ensures
        out@ == replace_all(text@, from@, to@),
{
    let len = text.unicode_len();
    let width = from.unicode_len();
    if width == 0 {
        return String::from_str(text);
    }
    let mut out = String::new();
    let mut at: usize = 0;
    assert(text@.skip(0) =~= text@);
    while at < len
        invariant
            at <= len,
            len == text@.len(),
            width == from@.len(),
            width > 0,
            out@ + replace_all(text@.skip(at as int), from@, to@) == replace_all(
                text@,
                from@,
                to@,
            ),
        decreases len - at,
    {
        let ghost rest = text@.skip(at as int);
        if matches_at(text, from, at) {
            proof {
                assert(rest.subrange(0, width as int) =~= text@.subrange(
                    at as int,
                    at + width,
                ));
                assert(rest.skip(width as int) =~= text@.skip(at + width));
            }
            out.append(to);
            at = at + width;
        } else {
            proof {
                if at + width <= len {
                    assert(rest.subrange(0, width as int) =~= text@.subrange(
                        at as int,
                        at + width,
                    ));
                }
                assert(rest.skip(1) =~= text@.skip(at + 1));
            }
            out.append(text.substring_char(at, at + 1));
            at = at + 1;
        }
    }
    out
}

/// `text` without its last character.
pub fn shortened(text: &str) -> (out: String)
    ensures
        out@ == without_last(text@),
{
    let len = text.unicode_len();
    if len == 0 {
        String::from_str(text)
    } else {
        String::from_str(text.substring_char(0, len - 1))
    }
}

} // verus!
