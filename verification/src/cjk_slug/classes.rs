//! The code-point blocks and the character classes of the slug
//! normaliser: which characters a slug keeps, which it drops, and which
//! separate words.

use vstd::prelude::*;

verus! {

/// `char::from_u32` gives the character with the given scalar value, and
/// `None` for surrogates and for values above U+10FFFF.
pub assume_specification[ char::from_u32 ](i: u32) -> (r: Option<char>)
    ensures
        r == if i <= 0xD7FF || (0xE000 <= i && i <= 0x10FFFF) {
            Some(i as char)
        } else {
            None::<char>
        },
;

// ----------------------------------------------------------------------
// Code-point blocks
// ----------------------------------------------------------------------
/// Hiragana.
pub const HIRAGANA_FIRST: char = '\u{3040}';

pub const HIRAGANA_LAST: char = '\u{309f}';

/// Katakana.
pub const KATAKANA_FIRST: char = '\u{30a0}';

pub const KATAKANA_LAST: char = '\u{30ff}';

/// CJK unified ideographs, extension A: rare Kanji.
pub const CJK_EXTENSION_A_FIRST: char = '\u{3400}';

pub const CJK_EXTENSION_A_LAST: char = '\u{4dbf}';

/// CJK unified ideographs: common and uncommon Kanji.
pub const CJK_UNIFIED_FIRST: char = '\u{4e00}';

pub const CJK_UNIFIED_LAST: char = '\u{9faf}';

/// Hangul syllables.
pub const HANGUL_SYLLABLES_FIRST: char = '\u{ac00}';

pub const HANGUL_SYLLABLES_LAST: char = '\u{d7a3}';

/// Full-width Roman characters and half-width Katakana.
pub const WIDTH_FORMS_FIRST: char = '\u{ff00}';

pub const WIDTH_FORMS_LAST: char = '\u{ff9f}';

/// Half-width Katakana, with the half-width CJK punctuation before it.
pub const HALFWIDTH_KANA_FIRST: char = '\u{ff60}';

pub const HALFWIDTH_KANA_LAST: char = '\u{ff9f}';

// ----------------------------------------------------------------------
// Character classes
// ----------------------------------------------------------------------
/// The range U+FF60..=U+FF9F: half-width Katakana, with the half-width CJK
/// punctuation before it.
pub open spec fn spec_is_halfwidth_kana(c: char) -> bool {
    HALFWIDTH_KANA_FIRST <= c <= HALFWIDTH_KANA_LAST
}

#[verifier::when_used_as_spec(spec_is_halfwidth_kana)]
pub fn is_halfwidth_kana(c: char) -> (r: bool)
    ensures
        r == spec_is_halfwidth_kana(c),
{
    HALFWIDTH_KANA_FIRST <= c && c <= HALFWIDTH_KANA_LAST
}

/// Hangul Jamo, Hangul compatibility Jamo, parenthesized and circled Hangul,
/// half-width Hangul, and the full-width won sign.
pub open spec fn spec_is_hangul_compat(c: char) -> bool {
    ||| '\u{1100}' <= c <= '\u{11ff}'
    ||| '\u{3130}' <= c <= '\u{318f}'
    ||| '\u{3200}' <= c <= '\u{321e}'
    ||| '\u{3260}' <= c <= '\u{327f}'
    ||| '\u{ffa0}' <= c <= '\u{ffdc}'
    ||| c == '\u{ffe6}'
}

#[verifier::when_used_as_spec(spec_is_hangul_compat)]
pub fn is_hangul_compat(c: char) -> (r: bool)
    ensures
        r == spec_is_hangul_compat(c),
{
    ('\u{1100}' <= c && c <= '\u{11ff}') || ('\u{3130}' <= c && c <= '\u{318f}') || ('\u{3200}'
        <= c && c <= '\u{321e}') || ('\u{3260}' <= c && c <= '\u{327f}') || ('\u{ffa0}' <= c && c
        <= '\u{ffdc}') || c == '\u{ffe6}'
}

/// The quotation marks that the slug drops: `"`, `'`, the modifier letter
/// apostrophe, the grave and acute accents, and the curly single and double
/// quotation marks.
pub open spec fn spec_is_quote(c: char) -> bool {
    ||| c == '\u{22}'
    ||| c == '\u{27}'
    ||| c == '\u{2bc}'
    ||| c == '\u{60}'
    ||| c == '\u{b4}'
    ||| c == '\u{2018}'
    ||| c == '\u{2019}'
    ||| c == '\u{201c}'
    ||| c == '\u{201d}'
}

#[verifier::when_used_as_spec(spec_is_quote)]
pub fn is_quote(c: char) -> (r: bool)
    ensures
        r == spec_is_quote(c),
{
    c == '\u{22}' || c == '\u{27}' || c == '\u{2bc}' || c == '\u{60}' || c == '\u{b4}' || c
        == '\u{2018}' || c == '\u{2019}' || c == '\u{201c}' || c == '\u{201d}'
}

/// The code points with the Unicode property `White_Space`.
pub open spec fn spec_is_whitespace(c: char) -> bool {
    ||| '\u{9}' <= c <= '\u{d}'
    ||| c == ' '
    ||| c == '\u{85}'
    ||| c == '\u{a0}'
    ||| c == '\u{1680}'
    ||| '\u{2000}' <= c <= '\u{200a}'
    ||| c == '\u{2028}'
    ||| c == '\u{2029}'
    ||| c == '\u{202f}'
    ||| c == '\u{205f}'
    ||| c == '\u{3000}'
}

#[verifier::when_used_as_spec(spec_is_whitespace)]
pub fn is_whitespace(c: char) -> (r: bool)
    ensures
        r == spec_is_whitespace(c),
{
    ('\u{9}' <= c && c <= '\u{d}') || c == ' ' || c == '\u{85}' || c == '\u{a0}' || c
        == '\u{1680}' || ('\u{2000}' <= c && c <= '\u{200a}') || c == '\u{2028}' || c
        == '\u{2029}' || c == '\u{202f}' || c == '\u{205f}' || c == '\u{3000}'
}

/// Whitespace or underscore: what separates words in a title.
pub open spec fn spec_is_separator(c: char) -> bool {
    is_whitespace(c) || c == '_'
}

#[verifier::when_used_as_spec(spec_is_separator)]
pub fn is_separator(c: char) -> (r: bool)
    ensures
        r == spec_is_separator(c),
{
    is_whitespace(c) || c == '_'
}

/// The characters that a slug keeps: ASCII letters and digits, the dash,
/// Hiragana, Katakana, CJK unified ideographs (with extension A), Hangul
/// syllables, and the half-width and full-width forms up to U+FF9F.
pub open spec fn spec_is_allowed(c: char) -> bool {
    ||| 'a' <= c <= 'z'
    ||| 'A' <= c <= 'Z'
    ||| '0' <= c <= '9'
    ||| c == '-'
    ||| HIRAGANA_FIRST <= c <= HIRAGANA_LAST
    ||| KATAKANA_FIRST <= c <= KATAKANA_LAST
    ||| CJK_EXTENSION_A_FIRST <= c <= CJK_EXTENSION_A_LAST
    ||| CJK_UNIFIED_FIRST <= c <= CJK_UNIFIED_LAST
    ||| HANGUL_SYLLABLES_FIRST <= c <= HANGUL_SYLLABLES_LAST
    ||| WIDTH_FORMS_FIRST <= c <= WIDTH_FORMS_LAST
}

#[verifier::when_used_as_spec(spec_is_allowed)]
pub fn is_allowed(c: char) -> (r: bool)
    ensures
        r == spec_is_allowed(c),
{
    ('a' <= c && c <= 'z') || ('A' <= c && c <= 'Z') || ('0' <= c && c <= '9') || c == '-' || (
    HIRAGANA_FIRST <= c && c <= HIRAGANA_LAST) || (KATAKANA_FIRST <= c && c <= KATAKANA_LAST) || (
    CJK_EXTENSION_A_FIRST <= c && c <= CJK_EXTENSION_A_LAST) || (CJK_UNIFIED_FIRST <= c && c
        <= CJK_UNIFIED_LAST) || (HANGUL_SYLLABLES_FIRST <= c && c <= HANGUL_SYLLABLES_LAST) || (
    WIDTH_FORMS_FIRST <= c && c <= WIDTH_FORMS_LAST)
}

/// A class of characters that a stage of the pipeline looks for.
#[derive(Clone, Copy, Debug, PartialEq, Eq)]
pub enum CharClass {
    HalfwidthKana,
    HangulCompat,
    Quote,
    Separator,
    Dash,
}

/// Whether `c` is a character of `class`.
pub open spec fn spec_in_class(class: CharClass, c: char) -> bool {
    match class {
        CharClass::HalfwidthKana => is_halfwidth_kana(c),
        CharClass::HangulCompat => is_hangul_compat(c),
        CharClass::Quote => is_quote(c),
        CharClass::Separator => is_separator(c),
        CharClass::Dash => c == '-',
    }
}

#[verifier::when_used_as_spec(spec_in_class)]
pub fn in_class(class: CharClass, c: char) -> (r: bool)
    ensures
        r == spec_in_class(class, c),
{
    match class {
        CharClass::HalfwidthKana => is_halfwidth_kana(c),
        CharClass::HangulCompat => is_hangul_compat(c),
        CharClass::Quote => is_quote(c),
        CharClass::Separator => is_separator(c),
        CharClass::Dash => c == '-',
    }
}

/// The lowercase form of `c`. Among the allowed characters only the ASCII
/// capitals and the full-width capitals U+FF21..=U+FF3A have one that
/// differs from `c`; every other character is its own lowercase form here.
pub open spec fn spec_lower(c: char) -> char {
    if 'A' <= c <= 'Z' || '\u{ff21}' <= c <= '\u{ff3a}' {
        ((c as u32) + 32) as char
    } else {
        c
    }
}

#[verifier::when_used_as_spec(spec_lower)]
pub fn lower(c: char) -> (r: char)
    ensures
        r == spec_lower(c),
{
    if ('A' <= c && c <= 'Z') || ('\u{ff21}' <= c && c <= '\u{ff3a}') {
        let code: u32 = c as u32;
        match char::from_u32(code + 32) {
            Some(l) => l,
            None => c,
        }
    } else {
        c
    }
}

} // verus!
