use vstd::prelude::*;

verus! {

/// The UTF-16 code units of one character: itself below `0x10000`, else the
/// surrogate pair of the offset `c - 0x10000` (its high ten bits after
/// `0xD800`, its low ten bits after `0xDC00`).
pub open spec fn utf16_units(c: char) -> Seq<u16> {
    let v = (c as u32) as int;
    if v < 0x10000 {
        seq![v as u16]
    } else {
        let w = v - 0x10000;
        seq![(0xD800 + w / 0x400) as u16, (0xDC00 + w % 0x400) as u16]
    }
}

/// The UTF-16 encoding of a string.
pub open spec fn utf16(s: Seq<char>) -> Seq<u16>
    decreases s.len(),
{
    if s.len() == 0 {
        Seq::empty()
    } else {
        utf16(s.drop_last()) + utf16_units(s.last())
    }
}

/// How a character's units read back: a character below `0x10000` is one
/// unit equal to it (never a surrogate); any other is a high surrogate
/// (`0xD800..=0xDBFF`) then a low one (`0xDC00..=0xDFFF`), from which
/// `0x10000 + (high - 0xD800) * 0x400 + (low - 0xDC00)` gives it back.
pub proof fn lemma_utf16_units_decode(c: char)
    ensures
        (c as u32) < 0x10000 ==> utf16_units(c).len() == 1 && utf16_units(c)[0] as u32 == c as u32
            && !(0xD800 <= utf16_units(c)[0] <= 0xDFFF),
        (c as u32) >= 0x10000 ==> {
            let u = utf16_units(c);
            &&& u.len() == 2
            &&& 0xD800 <= u[0] <= 0xDBFF
            &&& 0xDC00 <= u[1] <= 0xDFFF
            &&& 0x10000 + (u[0] - 0xD800) * 0x400 + (u[1] - 0xDC00) == c as u32
        },
{
    vstd::utf8::char_is_scalar(c);
}

/// Encoding a string encodes each piece in turn.
pub proof fn lemma_utf16_append(a: Seq<char>, b: Seq<char>)
    ensures
        utf16(a + b) == utf16(a) + utf16(b),
    decreases b.len(),
{
    if b.len() == 0 {
        assert(a + b =~= a);
        assert(utf16(a) + utf16(b) =~= utf16(a));
    } else {
        lemma_utf16_append(a, b.drop_last());
        assert((a + b).drop_last() =~= a + b.drop_last());
        assert((a + b).last() == b.last());
        assert(utf16(a) + utf16(b) =~= utf16(a) + utf16(b.drop_last()) + utf16_units(b.last()));
    }
}

/// `text` in UTF-16 followed by a zero unit, the form in which the Win32
/// calls take the input method's name and the icon file's path.
pub fn null_terminated_wchars(text: &str) -> (r: Vec<u16>)
    ensures
        r@ == utf16(text@).push(0),
{
    let mut units: Vec<u16> = Vec::new();
    for c in it: text.chars()
        invariant
            it.seq() == text@,
            units@ == utf16(text@.take(it.index() as int)),
    {
        let ghost before = units@;
        let ghost i = it.index();
        let v: u32 = c as u32;
        proof {
            vstd::utf8::char_is_scalar(c);
        }
        if v < 0x10000 {
            units.push(v as u16);
        } else {
            let w: u32 = v - 0x10000;
            assert(w >> 10u32 == w / 0x400) by (bit_vector);
            assert(w & 0x3FFu32 == w % 0x400) by (bit_vector);
            assert(w / 0x400 < 0x400);
            units.push((0xD800 + (w >> 10u32)) as u16);
            units.push((0xDC00 + (w & 0x3FFu32)) as u16);
        }
        assert(text@.take(i + 1).drop_last() =~= text@.take(i as int));
        assert(units@ =~= before + utf16_units(c));
    }
    assert(text@.take(text@.len() as int) =~= text@);
    units.push(0);
    units
}

} // verus!
