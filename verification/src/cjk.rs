//! Which characters count as CJK, and whether a text starts or ends with one.

use vstd::prelude::*;
use vstd::string::StrSliceExecFns;

verus! {

/// Whether `c` lies in one of the ranges of scripts that are written
/// without spaces between words. The bounds are inclusive.
///
/// | range         | what it holds                                            |
/// |---------------|----------------------------------------------------------|
/// | `2000..=206F` | General Punctuation                                      |
/// | `2E80..=2EDF` | CJK Radicals Supplement, as far as `2EDF`                |
/// | `3000..=9FFF` | CJK Symbols and Punctuation, Hiragana, Katakana,         |
/// |               | Bopomofo, Hangul Compatibility Jamo, Kanbun, CJK         |
/// |               | Strokes, Enclosed CJK Letters and Months, CJK            |
/// |               | Compatibility, Extension A, Yijing Hexagram Symbols, CJK |
/// |               | Unified Ideographs                                       |
/// | `AC00..=D7FF` | Hangul Syllables, Hangul Jamo Extended-B                 |
/// | `F900..=FAFF` | CJK Compatibility Ideographs                             |
/// | `FE30..=FE6F` | CJK Compatibility Forms, Small Form Variants             |
/// | `FF00..=FFEE` | Halfwidth and Fullwidth Forms                            |
///
/// The blocks of the supplementary planes (kana extensions, ideograph
/// extensions B and later, emoji) are left out on purpose: the table stays
/// small, and a character is classified by a handful of comparisons.
pub open spec fn cjk(c: char) -> bool {
    let v = c as u32;
    ||| 0x2000 <= v <= 0x206F
    ||| 0x2E80 <= v <= 0x2EDF
    ||| 0x3000 <= v <= 0x9FFF
    ||| 0xAC00 <= v <= 0xD7FF
    ||| 0xF900 <= v <= 0xFAFF
    ||| 0xFE30 <= v <= 0xFE6F
    ||| 0xFF00 <= v <= 0xFFEE
}

/// Whether `text` is not empty and its first character is CJK.
pub open spec fn cjk_at_start(text: Seq<char>) -> bool {
    text.len() > 0 && cjk(text.first())
}

/// Whether `text` is not empty and its last character is CJK.
pub open spec fn cjk_at_end(text: Seq<char>) -> bool {
    text.len() > 0 && cjk(text.last())
}

/// Tells whether `ch` is a CJK character.
pub fn is_cjk(ch: char) -> (b: bool)
    ensures
        b == cjk(ch),
{
    let v: u32 = ch as u32;
    (0x2000 <= v && v <= 0x206F) || (0x2E80 <= v && v <= 0x2EDF) || (0x3000 <= v && v <= 0x9FFF)
        || (0xAC00 <= v && v <= 0xD7FF) || (0xF900 <= v && v <= 0xFAFF) || (0xFE30 <= v && v
        <= 0xFE6F) || (0xFF00 <= v && v <= 0xFFEE)
}

/// Tells whether the last character of `text` is CJK; an empty text has none.
pub fn ends_with_cjk(text: &str) -> (b: bool)
    ensures
        b == cjk_at_end(text@),
{
    let n: usize = text.unicode_len();
    if n == 0 {
        false
    } else {
        is_cjk(text.get_char(n - 1))
    }
}

/// Tells whether the first character of `text` is CJK; an empty text has none.
pub fn starts_with_cjk(text: &str) -> (b: bool)
    ensures
        b == cjk_at_start(text@),
{
    if text.is_empty() {
        false
    } else {
        is_cjk(text.get_char(0))
    }
}

} // verus!
