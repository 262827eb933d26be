use vstd::prelude::*;

verus! {

/// The class of a character, as word-wise deletion sees it.
#[derive(PartialEq, Eq, Structural, Debug, Clone, Copy)]
pub enum CharType {
    Whitespace,
    ZWSP,
    Punctuation,
    Other,
}

/// The code point of the zero-width space that marks block boundaries.
pub const ZWSP_POINT: u32 = 0x200B;

/// The Unicode `White_Space` property.
pub open spec fn is_white_space_point(v: u32) -> bool {
    (0x9 <= v && v <= 0xD) || v == 0x20 || v == 0x85 || v == 0xA0 || v == 0x1680 || (0x2000
        <= v && v <= 0x200A) || v == 0x2028 || v == 0x2029 || v == 0x202F || v == 0x205F || v
        == 0x3000
}

/// The ASCII punctuation and symbol characters.
pub open spec fn is_ascii_punctuation_point(v: u32) -> bool {
    (0x21 <= v && v <= 0x2F) || (0x3A <= v && v <= 0x40) || (0x5B <= v && v <= 0x60) || (0x7B
        <= v && v <= 0x7E)
}

/// The pound sign, counted with punctuation.
pub const POUND_POINT: u32 = 0xA3;

/// What `get_char_type` answers for a code point: the zero-width space, a
/// class of its own, then white space, then punctuation (ASCII, and the pound
/// sign), then the rest.
pub open spec fn char_type_of_point(v: u32) -> CharType {
    if v == ZWSP_POINT {
        CharType::ZWSP
    } else if is_white_space_point(v) {
        CharType::Whitespace
    } else if is_ascii_punctuation_point(v) || v == POUND_POINT {
        CharType::Punctuation
    } else {
        CharType::Other
    }
}

/// Classifies a code point as `get_char_type` does.
pub fn char_type_of_code_point(v: u32) -> (r: CharType)
    ensures
        r == char_type_of_point(v),
{
    if v == ZWSP_POINT {
        CharType::ZWSP
    } else if (0x9 <= v && v <= 0xD) || v == 0x20 || v == 0x85 || v == 0xA0 || v == 0x1680 || (
    0x2000 <= v && v <= 0x200A) || v == 0x2028 || v == 0x2029 || v == 0x202F || v == 0x205F || v
        == 0x3000 {
        CharType::Whitespace
    } else if (0x21 <= v && v <= 0x2F) || (0x3A <= v && v <= 0x40) || (0x5B <= v && v <= 0x60)
        || (0x7B <= v && v <= 0x7E) || v == POUND_POINT {
        CharType::Punctuation
    } else {
        CharType::Other
    }
}

/// Classifies a character for word-wise deletion.
pub fn get_char_type(c: char) -> (r: CharType)
    ensures
        r == char_type_of_point(c as u32),
{
    char_type_of_code_point(c as u32)
}

} // verus!
