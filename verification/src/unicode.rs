//! The Unicode escapes of a document: code units, their fallback characters
//! and the text that they spell.

use vstd::prelude::*;
use vstd::utf8::char_u32_cast;

verus! {

/// `String::push` appends the character to the end of the string and leaves
/// the rest as it was.
pub assume_specification[ String::push ](s: &mut String, ch: char)
    ensures
        final(s)@ == old(s)@.push(ch),
;

/// `char::from_u32` gives the character with the code point `i` where `i` is a
/// Unicode scalar value, that is below 0xD800 or from 0xE000 to 0x10FFFF, and
/// `None` for every other number.
pub assume_specification[ char::from_u32 ](i: u32) -> (r: Option<char>)
    ensures
        is_scalar_value(i) ==> r is Some && r->0 as u32 == i,
        !is_scalar_value(i) ==> r is None,
;

/// Whether a number is the code point of a character.
pub open spec fn is_scalar_value(v: u32) -> bool {
    v < 0xD800 || 0xE000 <= v <= 0x10FFFF
}

/// The first unit of a surrogate pair.
pub open spec fn is_high_surrogate(u: u16) -> bool {
    0xD800 <= u <= 0xDBFF
}

/// The second unit of a surrogate pair.
pub open spec fn is_low_surrogate(u: u16) -> bool {
    0xDC00 <= u <= 0xDFFF
}

/// The code point that a surrogate pair stands for.
pub open spec fn pair_value(high: u16, low: u16) -> u32 {
    (0x10000 + (high - 0xD800) * 0x400 + (low - 0xDC00)) as u32
}

/// The text that the code units from `i` on spell in UTF-16, behind the text
/// `acc` of the units before `i`. A unit outside the surrogate range is the
/// character of that code point, a high surrogate before a low one is the
/// character of the pair, and any other surrogate is the error.
pub open spec fn utf16_from(units: Seq<u16>, i: int, acc: Seq<char>) -> Result<Seq<char>, u16>
    decreases units.len() - i,
{
    if i < 0 || i >= units.len() {
        Ok(acc)
    } else {
        let u = units[i];
        if !is_high_surrogate(u) && !is_low_surrogate(u) {
            utf16_from(units, i + 1, acc.push((u as u32) as char))
        } else if is_high_surrogate(u) && i + 1 < units.len() && is_low_surrogate(units[i + 1]) {
            utf16_from(units, i + 2, acc.push(pair_value(u, units[i + 1]) as char))
        } else {
            Err(u)
        }
    }
}

/// The text that a sequence of UTF-16 code units spells, or the first unit
/// that is a surrogate without its partner.
pub open spec fn utf16_text(units: Seq<u16>) -> Result<Seq<char>, u16> {
    utf16_from(units, 0, Seq::empty())
}

/// The units that stay, from position `i` on, behind the units `acc` that
/// stayed before. A unit up to 255 is a fallback character and is left out
/// while fewer than `count` were left out in a row; any unit that stays
/// starts the count anew.
pub open spec fn fallback_from(units: Seq<u16>, count: i32, i: int, skipped: int, acc: Seq<u16>)
    -> Seq<u16>
    decreases units.len() - i,
{
    if i < 0 || i >= units.len() {
        acc
    } else if units[i] <= 255 && skipped < count {
        fallback_from(units, count, i + 1, skipped + 1, acc)
    } else {
        fallback_from(units, count, i + 1, 0, acc.push(units[i]))
    }
}

/// The code units of a run of escapes without the fallback characters that
/// follow them. The first unit always stays.
pub open spec fn without_fallback(units: Seq<u16>, count: i32) -> Seq<u16> {
    if units.len() == 0 {
        Seq::empty()
    } else {
        fallback_from(units, count, 1, 0, seq![units[0]])
    }
}

/// Leaves the fallback characters out of a run of code units.
pub fn drop_fallback(units: &Vec<u16>, ignore_count: i32) -> (kept: Vec<u16>)
    ensures
        kept@ == without_fallback(units@, ignore_count),
{
    let mut kept: Vec<u16> = Vec::new();
    if units.len() == 0 {
        return kept;
    }
    kept.push(units[0]);
    let mut ignore_counter: i32 = 0;
    let mut i: usize = 1;
    while i < units.len()
        invariant
            1 <= i <= units.len(),
            0 <= ignore_counter,
            ignore_counter <= ignore_count || ignore_counter == 0,
            without_fallback(units@, ignore_count) == fallback_from(
                units@,
                ignore_count,
                i as int,
                ignore_counter as int,
                kept@,
            ),
        decreases units.len() - i,
    {
        if units[i] <= 255 && ignore_counter < ignore_count {
            ignore_counter += 1;
        } else {
            ignore_counter = 0;
            kept.push(units[i]);
        }
        i += 1;
    }
    kept
}

/// Decodes UTF-16 code units into text. The error is the first surrogate
/// that stands without its partner.
pub fn decode_utf16(units: &Vec<u16>) -> (r: Result<String, u16>)
    ensures
        match utf16_text(units@) {
            Ok(text) => r is Ok && r->Ok_0@ == text,
            Err(u) => r == Err::<String, u16>(u),
        },
{
    let mut text = String::new();
    let mut i: usize = 0;
    while i < units.len()
        invariant
            i <= units.len(),
            utf16_text(units@) == utf16_from(units@, i as int, text@),
        decreases units.len() - i,
    {
        let u = units[i];
        if u < 0xD800 || u > 0xDFFF {
            match char::from_u32(u as u32) {
                Some(c) => {
                    proof {
                        char_u32_cast(c, u as u32);
                    }
                    text.push(c);
                    i += 1;
                },
                None => {
                    return Err(u);
                },
            }
        } else if u <= 0xDBFF && i + 1 < units.len() && 0xDC00 <= units[i + 1] && units[i + 1]
            <= 0xDFFF {
            let low = units[i + 1];
            let value: u32 = 0x10000 + (u as u32 - 0xD800) * 0x400 + (low as u32 - 0xDC00);
            match char::from_u32(value) {
                Some(c) => {
                    proof {
                        char_u32_cast(c, value);
                    }
                    text.push(c);
                    i += 2;
                },
                None => {
                    return Err(u);
                },
            }
        } else {
            return Err(u);
        }
    }
    Ok(text)
}

} // verus!
