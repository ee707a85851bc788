//! Packing of 32-bit words into byte payloads, least-significant byte first,
//! as the GPU expects uniform and vertex data.

use vstd::prelude::*;

verus! {

/// The four bytes of one word, least-significant first.
pub open spec fn word_bytes(w: u32) -> Seq<u8> {
    seq![
        (w % 0x100) as u8,
        ((w / 0x100) % 0x100) as u8,
        ((w / 0x10000) % 0x100) as u8,
        ((w / 0x1000000) % 0x100) as u8,
    ]
}

/// Append the four bytes of `w` to `out`.
pub fn push_word(out: &mut Vec<u8>, w: u32)
    ensures
        final(out)@ == old(out)@ + word_bytes(w),
{
    out.push((w % 0x100) as u8);
    out.push(((w / 0x100) % 0x100) as u8);
    out.push(((w / 0x10000) % 0x100) as u8);
    out.push(((w / 0x1000000) % 0x100) as u8);
    proof {
        assert(final(out)@ =~= old(out)@ + word_bytes(w));
    }
}

} // verus!
