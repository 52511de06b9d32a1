//! Character classes used by the tweet grammar, the domain checks and the
//! weighting of text.
use vstd::prelude::*;

verus! {

broadcast use vstd::string::group_string_axioms;

/// `c` is an ASCII decimal digit.
pub open spec fn is_digit(c: char) -> bool {
    '0' <= c <= '9'
}

/// `c` is an ASCII letter.
pub open spec fn is_alpha(c: char) -> bool {
    ('a' <= c <= 'z') || ('A' <= c <= 'Z')
}

/// `c` is an ASCII letter or digit.
pub open spec fn is_alnum(c: char) -> bool {
    is_alpha(c) || is_digit(c)
}

/// `c` is a Latin letter: ASCII letters and the Latin-1 Supplement, Latin
/// Extended-A and Latin Extended-B blocks from U+00C0 on.
pub open spec fn is_latin(c: char) -> bool {
    is_alpha(c) || ('\u{00C0}' <= c <= '\u{024F}')
}

/// `c` is Unicode white space.
pub open spec fn is_space(c: char) -> bool {
    ||| ('\u{0009}' <= c <= '\u{000D}')
    ||| c == ' '
    ||| c == '\u{0085}'
    ||| c == '\u{00A0}'
    ||| c == '\u{1680}'
    ||| ('\u{2000}' <= c <= '\u{200A}')
    ||| c == '\u{2028}'
    ||| c == '\u{2029}'
    ||| c == '\u{202F}'
    ||| c == '\u{205F}'
    ||| c == '\u{3000}'
}

/// The characters that make a tweet invalid.
pub open spec fn is_invalid_char(c: char) -> bool {
    c == '\u{FFFE}' || c == '\u{FEFF}' || c == '\u{FFFF}'
}

/// Regional indicator symbols; two of them make a flag.
pub open spec fn is_regional_indicator(c: char) -> bool {
    '\u{1F1E6}' <= c <= '\u{1F1FF}'
}

/// Skin tone modifiers.
pub open spec fn is_emoji_modifier(c: char) -> bool {
    '\u{1F3FB}' <= c <= '\u{1F3FF}'
}

/// Characters that extend the emoji before them: the emoji variation
/// selector, the combining keycap and the tag characters.
pub open spec fn is_emoji_extender(c: char) -> bool {
    c == '\u{FE0F}' || c == '\u{20E3}' || ('\u{E0020}' <= c <= '\u{E007F}')
}

/// The zero width joiner, which glues emoji into one sequence.
pub open spec fn is_zwj(c: char) -> bool {
    c == '\u{200D}'
}

/// Pictographic characters that start an emoji.
pub open spec fn is_pictographic(c: char) -> bool {
    ||| c == '\u{00A9}'
    ||| c == '\u{00AE}'
    ||| c == '\u{203C}'
    ||| c == '\u{2049}'
    ||| c == '\u{2122}'
    ||| c == '\u{2139}'
    ||| ('\u{2194}' <= c <= '\u{2199}')
    ||| ('\u{21A9}' <= c <= '\u{21AA}')
    ||| ('\u{231A}' <= c <= '\u{231B}')
    ||| c == '\u{2328}'
    ||| c == '\u{23CF}'
    ||| ('\u{23E9}' <= c <= '\u{23F3}')
    ||| ('\u{23F8}' <= c <= '\u{23FA}')
    ||| c == '\u{24C2}'
    ||| ('\u{25AA}' <= c <= '\u{25AB}')
    ||| c == '\u{25B6}'
    ||| c == '\u{25C0}'
    ||| ('\u{25FB}' <= c <= '\u{25FE}')
    ||| ('\u{2600}' <= c <= '\u{27BF}')
    ||| ('\u{2934}' <= c <= '\u{2935}')
    ||| ('\u{2B05}' <= c <= '\u{2B07}')
    ||| ('\u{2B1B}' <= c <= '\u{2B1C}')
    ||| c == '\u{2B50}'
    ||| c == '\u{2B55}'
    ||| c == '\u{3030}'
    ||| c == '\u{303D}'
    ||| c == '\u{3297}'
    ||| c == '\u{3299}'
    ||| (('\u{1F000}' <= c <= '\u{1FAFF}') && !is_regional_indicator(c) && !is_emoji_modifier(c))
}

/// Punctuation blocks outside ASCII: General Punctuation, CJK Symbols and
/// Punctuation, and the full-width ASCII punctuation.
pub open spec fn is_wide_punctuation(c: char) -> bool {
    ||| ('\u{2000}' <= c <= '\u{206F}')
    ||| ('\u{3000}' <= c <= '\u{303F}')
    ||| ('\u{FF00}' <= c <= '\u{FF0F}')
    ||| ('\u{FF1A}' <= c <= '\u{FF20}')
    ||| ('\u{FF3B}' <= c <= '\u{FF40}')
    ||| ('\u{FF5B}' <= c <= '\u{FF65}')
}

/// A letter of a script other than ASCII: any character from U+00C0 on that
/// is neither space, punctuation, emoji nor an invalid character.
pub open spec fn is_unicode_word(c: char) -> bool {
    &&& c >= '\u{00C0}'
    &&& !is_space(c)
    &&& !is_invalid_char(c)
    &&& !is_wide_punctuation(c)
    &&& !is_pictographic(c)
    &&& !is_regional_indicator(c)
    &&& !is_emoji_modifier(c)
    &&& !is_emoji_extender(c)
}

/// A character that can stand in a hashtag.
pub open spec fn is_word_char(c: char) -> bool {
    is_alnum(c) || c == '_' || is_unicode_word(c)
}

/// A character that can stand in a domain label.
pub open spec fn is_domain_char(c: char) -> bool {
    is_alnum(c) || c == '-' || c == '_' || is_unicode_word(c)
}

/// A character that can stand in a user name.
pub open spec fn is_username_char(c: char) -> bool {
    is_alnum(c) || c == '_'
}

/// Cyrillic letters, allowed in the path of a URL.
pub open spec fn is_cyrillic(c: char) -> bool {
    '\u{0400}' <= c <= '\u{04FF}'
}

/// A character that can stand in the path or query of a URL.
pub open spec fn is_path_char(c: char) -> bool {
    ||| ('!' <= c <= '~' && c != '"' && c != '<' && c != '>' && c != '\\' && c != '^'
        && c != '`' && c != '{' && c != '}')
    ||| ('\u{00C0}' <= c <= '\u{024F}')
    ||| is_cyrillic(c)
}

/// A character that can end the path or query of a URL (a closing
/// parenthesis can too, when it closes one that the path opened).
pub open spec fn is_path_end_char(c: char) -> bool {
    ||| is_alnum(c)
    ||| c == '/' || c == '=' || c == '_' || c == '-' || c == '+' || c == '#' || c == '&'
    ||| ('\u{00C0}' <= c <= '\u{024F}')
    ||| is_cyrillic(c)
}

/// The at signs that start a mention.
pub open spec fn is_at_sign(c: char) -> bool {
    c == '@' || c == '\u{FF20}'
}

/// The hash signs that start a hashtag.
pub open spec fn is_hash_sign(c: char) -> bool {
    c == '#' || c == '\u{FF03}'
}

/// The number of UTF-16 code units that encode `c`.
pub open spec fn utf16_width(c: char) -> nat {
    if c >= '\u{10000}' { 2 } else { 1 }
}

/// The number of bytes that encode `c` in UTF-8.
pub open spec fn utf8_width(c: char) -> nat {
    let v = c as u32;
    if v <= 0x7F {
        1
    } else if v <= 0x7FF {
        2
    } else if v <= 0xFFFF {
        3
    } else {
        4
    }
}

pub fn is_digit_char(c: char) -> (r: bool)
    ensures r == is_digit(c),
{
    '0' <= c && c <= '9'
}

pub fn is_alpha_char(c: char) -> (r: bool)
    ensures r == is_alpha(c),
{
    ('a' <= c && c <= 'z') || ('A' <= c && c <= 'Z')
}

pub fn is_alnum_char(c: char) -> (r: bool)
    ensures r == is_alnum(c),
{
    is_alpha_char(c) || is_digit_char(c)
}

/// Whether `c` is a Latin letter (ASCII or Latin Extended).
pub fn is_latin_char(c: char) -> (r: bool)
    ensures r == is_latin(c),
{
    is_alpha_char(c) || ('\u{00C0}' <= c && c <= '\u{024F}')
}

pub fn is_space_char(c: char) -> (r: bool)
    ensures r == is_space(c),
{
    ('\u{0009}' <= c && c <= '\u{000D}') || c == ' ' || c == '\u{0085}' || c == '\u{00A0}'
        || c == '\u{1680}' || ('\u{2000}' <= c && c <= '\u{200A}') || c == '\u{2028}'
        || c == '\u{2029}' || c == '\u{202F}' || c == '\u{205F}' || c == '\u{3000}'
}

pub fn is_invalid(c: char) -> (r: bool)
    ensures r == is_invalid_char(c),
{
    c == '\u{FFFE}' || c == '\u{FEFF}' || c == '\u{FFFF}'
}

pub fn is_regional_indicator_char(c: char) -> (r: bool)
    ensures r == is_regional_indicator(c),
{
    '\u{1F1E6}' <= c && c <= '\u{1F1FF}'
}

pub fn is_emoji_modifier_char(c: char) -> (r: bool)
    ensures r == is_emoji_modifier(c),
{
    '\u{1F3FB}' <= c && c <= '\u{1F3FF}'
}

pub fn is_emoji_extender_char(c: char) -> (r: bool)
    ensures r == is_emoji_extender(c),
{
    c == '\u{FE0F}' || c == '\u{20E3}' || ('\u{E0020}' <= c && c <= '\u{E007F}')
}

pub fn is_pictographic_char(c: char) -> (r: bool)
    ensures r == is_pictographic(c),
{
    c == '\u{00A9}' || c == '\u{00AE}' || c == '\u{203C}' || c == '\u{2049}' || c == '\u{2122}'
        || c == '\u{2139}' || ('\u{2194}' <= c && c <= '\u{2199}')
        || ('\u{21A9}' <= c && c <= '\u{21AA}') || ('\u{231A}' <= c && c <= '\u{231B}')
        || c == '\u{2328}' || c == '\u{23CF}' || ('\u{23E9}' <= c && c <= '\u{23F3}')
        || ('\u{23F8}' <= c && c <= '\u{23FA}') || c == '\u{24C2}'
        || ('\u{25AA}' <= c && c <= '\u{25AB}') || c == '\u{25B6}' || c == '\u{25C0}'
        || ('\u{25FB}' <= c && c <= '\u{25FE}') || ('\u{2600}' <= c && c <= '\u{27BF}')
        || ('\u{2934}' <= c && c <= '\u{2935}') || ('\u{2B05}' <= c && c <= '\u{2B07}')
        || ('\u{2B1B}' <= c && c <= '\u{2B1C}') || c == '\u{2B50}' || c == '\u{2B55}'
        || c == '\u{3030}' || c == '\u{303D}' || c == '\u{3297}' || c == '\u{3299}'
        || (('\u{1F000}' <= c && c <= '\u{1FAFF}') && !is_regional_indicator_char(c)
            && !is_emoji_modifier_char(c))
}

pub fn is_wide_punctuation_char(c: char) -> (r: bool)
    ensures r == is_wide_punctuation(c),
{
    ('\u{2000}' <= c && c <= '\u{206F}') || ('\u{3000}' <= c && c <= '\u{303F}')
        || ('\u{FF00}' <= c && c <= '\u{FF0F}') || ('\u{FF1A}' <= c && c <= '\u{FF20}')
        || ('\u{FF3B}' <= c && c <= '\u{FF40}') || ('\u{FF5B}' <= c && c <= '\u{FF65}')
}

pub fn is_unicode_word_char(c: char) -> (r: bool)
    ensures r == is_unicode_word(c),
{
    c >= '\u{00C0}' && !is_space_char(c) && !is_invalid(c) && !is_wide_punctuation_char(c)
        && !is_pictographic_char(c) && !is_regional_indicator_char(c)
        && !is_emoji_modifier_char(c) && !is_emoji_extender_char(c)
}

pub fn is_word(c: char) -> (r: bool)
    ensures r == is_word_char(c),
{
    is_alnum_char(c) || c == '_' || is_unicode_word_char(c)
}

pub fn is_domain(c: char) -> (r: bool)
    ensures r == is_domain_char(c),
{
    is_alnum_char(c) || c == '-' || c == '_' || is_unicode_word_char(c)
}

pub fn is_username(c: char) -> (r: bool)
    ensures r == is_username_char(c),
{
    is_alnum_char(c) || c == '_'
}

pub fn is_path(c: char) -> (r: bool)
    ensures r == is_path_char(c),
{
    ('!' <= c && c <= '~' && c != '"' && c != '<' && c != '>' && c != '\\' && c != '^' && c != '`'
        && c != '{' && c != '}') || ('\u{00C0}' <= c && c <= '\u{024F}') || ('\u{0400}' <= c
        && c <= '\u{04FF}')
}

pub fn is_path_end(c: char) -> (r: bool)
    ensures r == is_path_end_char(c),
{
    is_alnum_char(c) || c == '/' || c == '=' || c == '_' || c == '-' || c == '+' || c == '#'
        || c == '&' || ('\u{00C0}' <= c && c <= '\u{024F}') || ('\u{0400}' <= c && c <= '\u{04FF}')
}

pub fn is_at(c: char) -> (r: bool)
    ensures r == is_at_sign(c),
{
    c == '@' || c == '\u{FF20}'
}

pub fn is_hash(c: char) -> (r: bool)
    ensures r == is_hash_sign(c),
{
    c == '#' || c == '\u{FF03}'
}

/// UTF-16 length of one character.
pub fn len_utf16(c: char) -> (r: usize)
    ensures r == utf16_width(c),
{
    if c >= '\u{10000}' { 2 } else { 1 }
}

/// UTF-8 length of one character.
pub fn len_utf8(c: char) -> (r: usize)
    ensures
        r == utf8_width(c),
{
    let v = c as u32;
    if v <= 0x7F {
        1
    } else if v <= 0x7FF {
        2
    } else if v <= 0xFFFF {
        3
    } else {
        4
    }
}

} // verus!
