//! Fixed-width numbers in little-endian byte order.

use vstd::prelude::*;

verus! {

/// The two bytes of a 16-bit number, least significant first.
pub open spec fn le2(x: u16) -> Seq<u8> {
    seq![(x % 256) as u8, (x / 256) as u8]
}

/// The four bytes of a 32-bit number, least significant first.
pub open spec fn le4(x: u32) -> Seq<u8> {
    seq![
        (x % 256) as u8,
        ((x / 256) % 256) as u8,
        ((x / 65536) % 256) as u8,
        (x / 16777216) as u8,
    ]
}

/// The 16-bit number at offset `at`.
pub open spec fn read2(s: Seq<u8>, at: int) -> u16 {
    (s[at] + 256 * s[at + 1]) as u16
}

/// The 32-bit number at offset `at`.
pub open spec fn read4(s: Seq<u8>, at: int) -> u32 {
    (s[at] + 256 * s[at + 1] + 65536 * s[at + 2] + 16777216 * s[at + 3]) as u32
}

/// A number read back from where it was written is the number.
pub proof fn read_le2(s: Seq<u8>, at: int, x: u16)
    requires
        0 <= at,
        at + 2 <= s.len(),
        s.subrange(at, at + 2) == le2(x),
    ensures
        read2(s, at) == x,
{
    let t = s.subrange(at, at + 2);
    assert(t[0] == s[at] && t[1] == s[at + 1]);
    assert(le2(x)[0] == (x % 256) as u8);
    assert(le2(x)[1] == (x / 256) as u8);
}

/// A number read back from where it was written is the number.
pub proof fn read_le4(s: Seq<u8>, at: int, x: u32)
    requires
        0 <= at,
        at + 4 <= s.len(),
        s.subrange(at, at + 4) == le4(x),
    ensures
        read4(s, at) == x,
{
    let t = s.subrange(at, at + 4);
    assert(t[0] == s[at] && t[1] == s[at + 1] && t[2] == s[at + 2] && t[3] == s[at + 3]);
    assert(le4(x)[0] == (x % 256) as u8);
    assert(le4(x)[1] == ((x / 256) % 256) as u8);
    assert(le4(x)[2] == ((x / 65536) % 256) as u8);
    assert(le4(x)[3] == (x / 16777216) as u8);
}

/// A number read and written again gives the bytes it was read from.
pub proof fn le2_read(s: Seq<u8>, at: int)
    requires
        0 <= at,
        at + 2 <= s.len(),
    ensures
        s.subrange(at, at + 2) == le2(read2(s, at)),
{
    let b0 = s[at];
    let b1 = s[at + 1];
    let x = read2(s, at);
    assert(x == b0 + 256 * b1);
    assert(x % 256 == b0);
    assert(x / 256 == b1);
    assert(s.subrange(at, at + 2) =~= le2(x));
}

/// A number read and written again gives the bytes it was read from.
pub proof fn le4_read(s: Seq<u8>, at: int)
    requires
        0 <= at,
        at + 4 <= s.len(),
    ensures
        s.subrange(at, at + 4) == le4(read4(s, at)),
{
    let b0 = s[at];
    let b1 = s[at + 1];
    let b2 = s[at + 2];
    let b3 = s[at + 3];
    let x = read4(s, at);
    assert(x == b0 + 256 * b1 + 65536 * b2 + 16777216 * b3);
    assert(x % 256 == b0);
    assert((x / 256) % 256 == b1);
    assert((x / 65536) % 256 == b2);
    assert(x / 16777216 == b3);
    assert(s.subrange(at, at + 4) =~= le4(x));
}

/// Appends a 16-bit number.
pub fn push_le2(v: &mut Vec<u8>, x: u16)
    ensures
        final(v)@ == old(v)@ + le2(x),
{
    v.push((x % 256) as u8);
    v.push((x / 256) as u8);
    assert(v@ =~= old(v)@ + le2(x));
}

/// Appends a 32-bit number.
pub fn push_le4(v: &mut Vec<u8>, x: u32)
    ensures
        final(v)@ == old(v)@ + le4(x),
{
    v.push((x % 256) as u8);
    v.push(((x / 256) % 256) as u8);
    v.push(((x / 65536) % 256) as u8);
    v.push((x / 16777216) as u8);
    assert(v@ =~= old(v)@ + le4(x));
}

/// Reads a 16-bit number.
pub fn get_le2(s: &[u8], at: usize) -> (r: u16)
    requires
        at + 2 <= s@.len(),
    ensures
        r == read2(s@, at as int),
{
    let lo: u16 = s[at] as u16;
    let hi: u16 = s[at + 1] as u16;
    lo + 256 * hi
}

/// Reads a 32-bit number.
pub fn get_le4(s: &[u8], at: usize) -> (r: u32)
    requires
        at + 4 <= s@.len(),
    ensures
        r == read4(s@, at as int),
{
    let b0: u32 = s[at] as u32;
    let b1: u32 = s[at + 1] as u32;
    let b2: u32 = s[at + 2] as u32;
    let b3: u32 = s[at + 3] as u32;
    b0 + 256 * b1 + 65536 * b2 + 16777216 * b3
}

/// The least significant byte comes first.
pub proof fn the_small_byte_comes_first(x: u16, y: u32)
    ensures
        le2(x).len() == 2,
        le2(x)[0] + 256 * le2(x)[1] == x,
        le4(y).len() == 4,
        le4(y)[0] + 256 * le4(y)[1] + 65536 * le4(y)[2] + 16777216 * le4(y)[3] == y,
{
}

} // verus!
