use unicode_segmentation::UnicodeSegmentation;
use vstd::prelude::*;

verus! {

/// The code unit of the zero-width space that marks block boundaries.
pub const ZWSP: u16 = 0x200B;

/// The code unit of a line break in the plain text of a document.
pub const NEWLINE: u16 = 0x000A;

/// The code unit of a plain space.
pub const SPACE: u16 = 0x0020;

/// The code unit of a non-breaking space.
pub const NBSP: u16 = 0x00A0;

pub open spec fn is_high_surrogate(u: u16) -> bool {
    0xD800 <= u && u <= 0xDBFF
}

pub open spec fn is_low_surrogate(u: u16) -> bool {
    0xDC00 <= u && u <= 0xDFFF
}

/// The UTF-16 code units of one character.
pub open spec fn char_units(c: char) -> Seq<u16> {
    let v = c as u32 as int;
    if v < 0x10000 {
        seq![v as u16]
    } else {
        let w = v - 0x10000;
        seq![(0xD800 + w / 0x400) as u16, (0xDC00 + w % 0x400) as u16]
    }
}

/// The UTF-16 code units of a sequence of characters.
pub open spec fn utf16_units(s: Seq<char>) -> Seq<u16>
    decreases s.len(),
{
    if s.len() == 0 {
        Seq::empty()
    } else {
        utf16_units(s.drop_last()) + char_units(s.last())
    }
}

/// Relies on widestring's `Utf16String::from_str` and `into_vec`: the string
/// is encoded as UTF-16, character by character.
#[verifier::external_body]
fn encode_utf16(s: &str) -> (r: Vec<u16>)
    ensures
        r@ == utf16_units(s@),
{
    widestring::Utf16String::from_str(s).into_vec()
}

/// Relies on widestring's `Utf16Str::from_slice` and `to_string`: the units
/// decode when, and only when, they are the UTF-16 encoding of some string.
#[verifier::external_body]
fn decode_utf16(v: &[u16]) -> (r: Option<String>)
    ensures
        r matches Some(s) ==> utf16_units(s@) == v@,
        r is None <==> !(exists|s: Seq<char>| utf16_units(s) == v@),
{
    match widestring::Utf16Str::from_slice(v) {
        Ok(s) => Some(s.to_string()),
        Err(_) => None,
    }
}

/// A copy of the units `start..end` of `v`.
pub(crate) fn units_between(v: &Vec<u16>, start: usize, end: usize) -> (r: Vec<u16>)
    requires
        start <= end <= v@.len(),
    ensures
        r@ == v@.subrange(start as int, end as int),
{
    let mut r: Vec<u16> = Vec::new();
    let mut i: usize = start;
    while i < end
        invariant
            start <= i <= end <= v@.len(),
            r@ == v@.subrange(start as int, i as int),
        decreases end - i,
    {
        r.push(v[i]);
        i = i + 1;
        assert(r@ =~= v@.subrange(start as int, i as int));
    }
    r
}

/// A copy of `v`.
pub(crate) fn copy_units(v: &Vec<u16>) -> (r: Vec<u16>)
    ensures
        r@ == v@,
{
    let r = units_between(v, 0, v.len());
    assert(v@.subrange(0, v@.len() as int) =~= v@);
    r
}

/// The UTF-16 code units of a string.
pub fn utf16(s: &str) -> (r: Vec<u16>)
    ensures
        r@ == utf16_units(s@),
{
    encode_utf16(s)
}

/// The string that the code units encode, if they are valid UTF-16.
pub fn utf16_to_string(v: &Vec<u16>) -> (r: Option<String>)
    ensures
        r matches Some(s) ==> utf16_units(s@) == v@,
        r is None <==> !(exists|s: Seq<char>| utf16_units(s) == v@),
{
    decode_utf16(v.as_slice())
}

/// The number of code units of the grapheme cluster (a user-perceived
/// character) that ends at `pos`.
pub uninterp spec fn grapheme_len_before(t: Seq<u16>, pos: int) -> int;

/// The number of code units of the grapheme cluster that starts at `pos`.
pub uninterp spec fn grapheme_len_after(t: Seq<u16>, pos: int) -> int;

/// Relies on unicode-segmentation's `graphemes(true)` and `next_back`: the
/// last extended grapheme cluster of the units before `pos`, counted in
/// UTF-16 units. An unpaired surrogate is read as one replacement character,
/// which keeps its one unit, so the cluster lies within those units.
#[verifier::external_body]
fn last_grapheme_len(t: &[u16], pos: usize) -> (r: usize)
    requires
        0 < pos <= t@.len(),
    ensures
        r == grapheme_len_before(t@, pos as int),
        1 <= r <= pos,
{
    let s = String::from_utf16_lossy(&t[..pos]);
    s.graphemes(true).next_back().map(|g| g.encode_utf16().count()).unwrap_or(pos)
}

/// Relies on unicode-segmentation's `graphemes(true)` and `next`: the first
/// extended grapheme cluster of the units from `pos` on, counted in UTF-16
/// units. An unpaired surrogate is read as one replacement character, which
/// keeps its one unit, so the cluster lies within those units.
#[verifier::external_body]
fn first_grapheme_len(t: &[u16], pos: usize) -> (r: usize)
    requires
        pos < t@.len(),
    ensures
        r == grapheme_len_after(t@, pos as int),
        1 <= r <= t@.len() - pos,
{
    let s = String::from_utf16_lossy(&t[pos..]);
    s.graphemes(true).next().map(|g| g.encode_utf16().count()).unwrap_or(t.len() - pos)
}

/// The number of code units of the character (a grapheme cluster) that ends
/// at `pos`.
pub fn find_previous_char_len(pos: usize, t: &Vec<u16>) -> (r: usize)
    requires
        0 < pos <= t@.len(),
    ensures
        r == grapheme_len_before(t@, pos as int),
        0 < r <= pos,
{
    last_grapheme_len(t.as_slice(), pos)
}

/// The number of code units of the character (a grapheme cluster) that
/// starts at `pos`.
pub fn find_next_char_len(pos: usize, t: &Vec<u16>) -> (r: usize)
    requires
        pos < t@.len(),
    ensures
        r == grapheme_len_after(t@, pos as int),
        0 < r <= t@.len() - pos,
{
    first_grapheme_len(t.as_slice(), pos)
}

} // verus!
