//! Frame checksums: the last byte of every frame is the sum of the bytes
//! before it, reduced modulo 128.

use vstd::prelude::*;
use vstd::slice::slice_subrange;

verus! {

/// Sum of all bytes of `bytes`, as an unbounded integer.
pub open spec fn byte_sum(bytes: Seq<u8>) -> int
    decreases bytes.len(),
{
    if bytes.len() == 0 {
        0
    } else {
        byte_sum(bytes.drop_last()) + bytes.last() as int
    }
}

/// The checksum byte that belongs behind `bytes`.
pub open spec fn checksum_of(bytes: Seq<u8>) -> u8 {
    (byte_sum(bytes) % 128) as u8
}

/// A frame carries a valid checksum when it is empty or when its last byte
/// is the checksum of everything before it.
pub open spec fn checksum_ok(frame: Seq<u8>) -> bool {
    frame.len() == 0 || frame.last() == checksum_of(frame.drop_last())
}

pub proof fn lemma_byte_sum_nonnegative(bytes: Seq<u8>)
    ensures
        0 <= byte_sum(bytes),
    decreases bytes.len(),
{
    if bytes.len() > 0 {
        lemma_byte_sum_nonnegative(bytes.drop_last());
    }
}

/// Calculates the one-byte checksum which appears at the end of each command or response.
pub fn calculate_checksum(bytes: &[u8]) -> (sum: u8)
    ensures
        sum == checksum_of(bytes@),
        sum < 128,
{
    let mut sum_byte: u8 = 0x00;
    let mut i: usize = 0;
    proof {
        assert(bytes@.take(0) =~= Seq::<u8>::empty());
    }
    while i < bytes.len()
        invariant
            0 <= i <= bytes.len(),
            sum_byte as int == byte_sum(bytes@.take(i as int)) % 256,
        decreases bytes.len() - i,
    {
        proof {
            let next = bytes@.take(i + 1);
            assert(next.drop_last() =~= bytes@.take(i as int));
            assert(next.last() == bytes@[i as int]);
            lemma_byte_sum_nonnegative(bytes@.take(i as int));
        }
        sum_byte = sum_byte.wrapping_add(bytes[i]);
        i += 1;
    }
    proof {
        assert(bytes@.take(i as int) =~= bytes@);
        lemma_byte_sum_nonnegative(bytes@);
    }
    sum_byte % 128
}

/// Verifies whether the checksum at the end of the given command or response matches the checksum
/// calculated on the fly.
pub fn is_checksum_ok(bytes: &[u8]) -> (ok: bool)
    ensures
        ok == checksum_ok(bytes@),
{
    let n = bytes.len();
    if n == 0 {
        return true;
    }
    let provided_checksum = bytes[n - 1];
    let calculated_checksum = calculate_checksum(slice_subrange(bytes, 0, n - 1));
    proof {
        assert(bytes@.subrange(0, n - 1) =~= bytes@.drop_last());
    }
    provided_checksum == calculated_checksum
}

/// Appending its checksum to any byte sequence gives a frame that verifies,
/// and the checksum never has its top bit set.
pub proof fn lemma_appended_checksum_verifies(bytes: Seq<u8>)
    ensures
        checksum_of(bytes) < 128,
        checksum_ok(bytes.push(checksum_of(bytes))),
{
    lemma_byte_sum_nonnegative(bytes);
    let framed = bytes.push(checksum_of(bytes));
    assert(framed.drop_last() =~= bytes);
}

} // verus!
