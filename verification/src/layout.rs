//! The on-disk byte layout: little-endian integers and NUL-padded names.

use vstd::prelude::*;

verus! {

/// The value of the little-endian 32-bit integer stored at `pos`.
pub open spec fn le32_at(s: Seq<u8>, pos: int) -> int {
    s[pos] + 0x100 * s[pos + 1] + 0x1_0000 * s[pos + 2] + 0x100_0000 * s[pos + 3]
}

/// Decodes the little-endian 32-bit integer stored at `pos`.
pub(crate) fn read_le32(source: &Vec<u8>, pos: usize) -> (r: u32)
    requires
        pos + 4 <= source@.len(),
    ensures
        r as int == le32_at(source@, pos as int),
{
    let n = source.len();
    proof {
        // Binding the length shows that every position below fits a usize.
        assert(pos + 4 <= n);
    }
    let b0 = source[pos] as u32;
    let b1 = source[pos + 1] as u32;
    let b2 = source[pos + 2] as u32;
    let b3 = source[pos + 3] as u32;
    b0 + b1 * 0x100 + b2 * 0x1_0000 + b3 * 0x100_0000
}

/// Relies on `String::push`: appends exactly the given character.
#[verifier::external_body]
pub(crate) fn push_char(s: &mut String, c: char)
    ensures
        final(s)@ == old(s)@.push(c),
{
    s.push(c);
}

} // verus!
