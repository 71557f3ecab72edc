//! The additive frame checksum.

use vstd::prelude::*;

verus! {

/// Sum of all bytes of `s`, as an unbounded number.
pub open spec fn byte_sum(s: Seq<u8>) -> nat
    decreases s.len(),
{
    if s.len() == 0 {
        0
    } else {
        byte_sum(s.drop_last()) + s.last() as nat
    }
}

/// The checksum of `s`: the two's complement of the low 16 bits of its byte sum.
pub open spec fn checksum_of(s: Seq<u8>) -> nat {
    ((65536 - byte_sum(s) % 65536) % 65536) as nat
}

/// The byte sum and the checksum of any bytes add up to zero modulo 2^16,
/// and the checksum fits 16 bits.
pub proof fn lemma_checksum_cancels(s: Seq<u8>)
    ensures
        (byte_sum(s) + checksum_of(s)) % 65536 == 0,
        checksum_of(s) < 65536,
{
}

/// Computes the frame checksum of `data`: the bytes are summed with
/// wraparound at 2^16 and the sum is negated, so that sum and checksum
/// together are zero modulo 2^16.
pub fn checksum(data: &[u8]) -> (r: u16)
    ensures
        r as nat == checksum_of(data@),
        (byte_sum(data@) + r as nat) % 65536 == 0,
{
    let mut acc: u16 = 0;
    let mut i: usize = 0;
    while i < data.len()
        invariant
            i <= data.len(),
            acc as nat == byte_sum(data@.subrange(0, i as int)) % 65536,
        decreases data.len() - i,
    {
        proof {
            let next = data@.subrange(0, i as int + 1);
            assert(next.drop_last() =~= data@.subrange(0, i as int));
            assert(next.last() == data@[i as int]);
        }
        acc = acc.wrapping_add(data[i] as u16);
        i += 1;
    }
    proof {
        assert(data@.subrange(0, i as int) =~= data@);
    }
    0u16.wrapping_sub(acc)
}

} // verus!
