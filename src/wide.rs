//! Zero-terminated UTF-16 text, the form strings take on the wire.
use vstd::prelude::*;

verus! {

/// The UTF-16 code units of one character: itself below 0x10000, else a
/// surrogate pair.
pub open spec fn utf16_of_char(c: char) -> Seq<u16> {
    let v = c as u32;
    if v < 0x1_0000 {
        seq![v as u16]
    } else {
        seq![(0xD800 + (v - 0x1_0000) / 0x400) as u16, (0xDC00 + (v - 0x1_0000) % 0x400) as u16]
    }
}

/// The UTF-16 code units of a text.
pub open spec fn utf16_of(s: Seq<char>) -> Seq<u16>
    decreases s.len(),
{
    if s.len() == 0 {
        Seq::empty()
    } else {
        utf16_of(s.drop_last()) + utf16_of_char(s.last())
    }
}

/// Encodes `s` as UTF-16 followed by a terminating zero unit.
pub fn wide_string(s: &str) -> (r: Vec<u16>)
    ensures
        r@ == utf16_of(s@).push(0u16),
{
    broadcast use vstd::string::axiom_spec_iter;
    let mut r: Vec<u16> = Vec::new();
    for c in it: s.chars()
        invariant
            it.seq() == s@,
            r@ == utf16_of(s@.take(it.index() as int)),
    {
        let ghost i = it.index() as int;
        let v = c as u32;
        if v < 0x1_0000 {
            r.push(v as u16);
        } else {
            let u = v - 0x1_0000;
            r.push((0xD800 + u / 0x400) as u16);
            r.push((0xDC00 + u % 0x400) as u16);
        }
        assert(s@.take(i + 1).drop_last() =~= s@.take(i));
        assert(r@ =~= utf16_of(s@.take(i + 1)));
    }
    assert(s@.take(s@.len() as int) =~= s@);
    r.push(0);
    r
}

/// A high (leading) surrogate.
pub open spec fn is_high_surrogate(u: u16) -> bool {
    0xD800 <= u < 0xDC00
}

/// A low (trailing) surrogate.
pub open spec fn is_low_surrogate(u: u16) -> bool {
    0xDC00 <= u < 0xE000
}

/// From index `i` on, every surrogate of `u` is a high one followed by a
/// low one.
pub open spec fn well_formed_from(u: Seq<u16>, i: int) -> bool
    decreases u.len() - i,
{
    if i >= u.len() || i < 0 {
        true
    } else if !is_high_surrogate(u[i]) && !is_low_surrogate(u[i]) {
        well_formed_from(u, i + 1)
    } else if is_high_surrogate(u[i]) && i + 1 < u.len() && is_low_surrogate(u[i + 1]) {
        well_formed_from(u, i + 2)
    } else {
        false
    }
}

/// `u` is well-formed UTF-16: no surrogate stands unpaired.
pub open spec fn well_formed_utf16(u: Seq<u16>) -> bool {
    well_formed_from(u, 0)
}

/// A wide string holds an unpaired surrogate.
#[derive(Clone, Copy, Debug, PartialEq, Eq, Structural)]
pub struct InvalidUtf16;

/// Relies on `char::from_u32`: `None` exactly for a surrogate or a value
/// past U+10FFFF; otherwise the character with that scalar value.
#[verifier::external_body]
fn char_from_u32(v: u32) -> (r: Option<char>)
    ensures
        r.is_some() <==> (v < 0xD800 || (0xE000 <= v && v <= 0x10FFFF)),
        r matches Some(c) ==> c as u32 == v,
{
    char::from_u32(v)
}

/// Decodes UTF-16 code units (without a terminator) into characters.
pub fn decode_wide(units: &[u16]) -> (r: Result<Vec<char>, InvalidUtf16>)
    ensures
        r.is_ok() <==> well_formed_utf16(units@),
        r matches Ok(cs) ==> utf16_of(cs@) == units@,
{
    let ghost u = units@;
    let mut cs: Vec<char> = Vec::new();
    let mut i: usize = 0;
    assert(u.take(0) =~= Seq::<u16>::empty());
    while i < units.len()
        invariant
            u == units@,
            i <= u.len(),
            well_formed_utf16(u) == well_formed_from(u, i as int),
            utf16_of(cs@) == u.take(i as int),
        decreases u.len() - i,
    {
        let w = units[i];
        if w < 0xD800 || w >= 0xE000 {
            let c = match char_from_u32(w as u32) {
                Some(c) => c,
                None => return Err(InvalidUtf16),
            };
            let ghost before = cs@;
            cs.push(c);
            assert(cs@.drop_last() =~= before);
            assert(u.take(i + 1) =~= u.take(i as int).push(w));
            i = i + 1;
        } else if w < 0xDC00 && i + 1 < units.len() && units[i + 1] >= 0xDC00 && units[i + 1]
            < 0xE000 {
            let lo = units[i + 1];
            let hi_bits: u32 = (w - 0xD800) as u32;
            let lo_bits: u32 = (lo - 0xDC00) as u32;
            let v: u32 = 0x1_0000 + hi_bits * 0x400 + lo_bits;
            let c = match char_from_u32(v) {
                Some(c) => c,
                None => return Err(InvalidUtf16),
            };
            assert((v - 0x1_0000) / 0x400 == hi_bits && (v - 0x1_0000) % 0x400 == lo_bits)
                by (nonlinear_arith)
                requires
                    v == 0x1_0000 + hi_bits * 0x400 + lo_bits,
                    lo_bits < 0x400,
            ;
            let ghost before = cs@;
            cs.push(c);
            assert(cs@.drop_last() =~= before);
            assert(utf16_of_char(c) =~= seq![w, lo]);
            assert(u.take(i + 2) =~= u.take(i as int) + seq![w, lo]);
            i = i + 2;
        } else {
            return Err(InvalidUtf16);
        }
    }
    assert(u.take(u.len() as int) =~= u);
    Ok(cs)
}

} // verus!
