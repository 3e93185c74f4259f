//! The XOR checksum that guards a record.

use vstd::prelude::*;

verus! {

/// XOR of all the bytes of `bytes`; zero for the empty sequence.
pub open spec fn xor_fold(bytes: Seq<u8>) -> u8
    decreases bytes.len(),
{
    if bytes.len() == 0 {
        0u8
    } else {
        xor_fold(bytes.drop_last()) ^ bytes.last()
    }
}

/// Replacing one byte changes the fold by the XOR of the old and the new byte.
pub proof fn lemma_xor_fold_update(bytes: Seq<u8>, i: int, v: u8)
    requires
        0 <= i < bytes.len(),
    ensures
        xor_fold(bytes.update(i, v)) == xor_fold(bytes) ^ bytes[i] ^ v,
    decreases bytes.len(),
{
    let head = xor_fold(bytes.drop_last());
    let last = bytes.last();
    if i == bytes.len() - 1 {
        assert(bytes.update(i, v).drop_last() =~= bytes.drop_last());
        assert(head ^ v == (head ^ last) ^ last ^ v) by (bit_vector);
    } else {
        let old_byte = bytes[i];
        assert(bytes.update(i, v).drop_last() =~= bytes.drop_last().update(i, v));
        lemma_xor_fold_update(bytes.drop_last(), i, v);
        assert((head ^ old_byte ^ v) ^ last == (head ^ last) ^ old_byte ^ v) by (bit_vector);
    }
}

/// A sequence of zero bytes folds to zero.
pub proof fn lemma_xor_fold_zeros(bytes: Seq<u8>)
    requires
        forall|i: int| 0 <= i < bytes.len() ==> bytes[i] == 0u8,
    ensures
        xor_fold(bytes) == 0u8,
    decreases bytes.len(),
{
    if bytes.len() > 0 {
        lemma_xor_fold_zeros(bytes.drop_last());
        assert(0u8 ^ 0u8 == 0u8) by (bit_vector);
    }
}

/// Computes the XOR of the bytes of `bytes` from index `start` to the end.
/// A `start` at or beyond the end gives zero.
pub fn xor_from(bytes: &[u8], start: usize) -> (acc: u8)
    ensures
        start <= bytes@.len() ==> acc == xor_fold(bytes@.subrange(start as int, bytes@.len() as int)),
        start > bytes@.len() ==> acc == 0u8,
{
    let mut acc: u8 = 0;
    if start > bytes.len() {
        return acc;
    }
    let mut i: usize = start;
    proof {
        assert(bytes@.subrange(start as int, start as int) =~= Seq::<u8>::empty());
    }
    while i < bytes.len()
        invariant
            start <= i <= bytes@.len(),
            acc == xor_fold(bytes@.subrange(start as int, i as int)),
        decreases bytes@.len() - i,
    {
        proof {
            let next = bytes@.subrange(start as int, i as int + 1);
            assert(next.drop_last() =~= bytes@.subrange(start as int, i as int));
            assert(next.last() == bytes@[i as int]);
        }
        acc = acc ^ bytes[i];
        i = i + 1;
    }
    acc
}

} // verus!
