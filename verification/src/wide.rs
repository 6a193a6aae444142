//! Text in the 16-bit units that the filtering engine takes.

use vstd::prelude::*;
use crate::text::{char_code, chars_of};

verus! {

/// The UTF-16 units of one character: the code point itself below
/// 0x10000, else a high and a low surrogate.
pub open spec fn utf16_units(c: char) -> Seq<u16> {
    let v = c as int;
    if v < 0x10000 {
        seq![v as u16]
    } else {
        seq![(0xD800 + (v - 0x10000) / 0x400) as u16, (0xDC00 + (v - 0x10000) % 0x400) as u16]
    }
}

/// The UTF-16 units of a text.
pub open spec fn utf16_of(text: Seq<char>) -> Seq<u16>
    decreases text.len(),
{
    if text.len() == 0 {
        Seq::empty()
    } else {
        utf16_of(text.drop_last()) + utf16_units(text.last())
    }
}

/// The UTF-16 units of `s`, closed by a zero.
pub fn to_wide_string(s: &str) -> (units: Vec<u16>)
    ensures
        units@ == utf16_of(s@).push(0u16),
{
    let chars = chars_of(s);
    let mut units: Vec<u16> = Vec::new();
    let mut i: usize = 0;
    while i < chars.len()
        invariant
            i <= chars.len(),
            chars@ == s@,
            units@ == utf16_of(chars@.take(i as int)),
        decreases chars.len() - i,
    {
        let code = char_code(chars[i]);
        let ghost before = units@;
        if code < 0x10000 {
            units.push(code as u16);
        } else {
            let offset: u32 = code - 0x10000;
            units.push((0xD800 + offset / 0x400) as u16);
            units.push((0xDC00 + offset % 0x400) as u16);
        }
        proof {
            assert(chars@.take(i + 1).drop_last() =~= chars@.take(i as int));
            assert(chars@.take(i + 1).last() == chars@[i as int]);
            assert(units@ =~= before + utf16_units(chars@[i as int]));
        }
        i = i + 1;
    }
    proof {
        assert(chars@.take(chars.len() as int) =~= chars@);
    }
    units.push(0);
    units
}

} // verus!
