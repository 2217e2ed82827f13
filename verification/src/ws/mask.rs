//! Payload masking: a reversible XOR with a key of four bytes.

use vstd::prelude::*;

verus! {

/// `data` with byte `i` combined by XOR with byte `i mod 4` of `key`.
pub open spec fn masked(key: [u8; 4], data: Seq<u8>) -> Seq<u8> {
    Seq::new(data.len(), |i: int| data[i] ^ key[i % 4])
}

/// Masking twice with one key returns the data: masking is its own inverse.
pub proof fn lemma_masked_twice(key: [u8; 4], data: Seq<u8>)
    ensures
        masked(key, masked(key, data)) == data,
{
    assert forall|i: int| 0 <= i < data.len() implies masked(key, masked(key, data))[i]
        == data[i] by {
        let d = data[i];
        let k = key[i % 4];
        assert((d ^ k) ^ k == d) by (bit_vector);
    }
    assert(masked(key, masked(key, data)) =~= data);
}

/// Appends `data`, masked with `key`, to `out`.
pub fn push_masked(out: &mut Vec<u8>, data: &[u8], key: [u8; 4])
    ensures
        final(out)@ == old(out)@ + masked(key, data@),
{
    let mut i: usize = 0;
    while i < data.len()
        invariant
            i <= data.len(),
            out@ == old(out)@ + masked(key, data@).take(i as int),
        decreases data.len() - i,
    {
        out.push(data[i] ^ key[i % 4]);
        assert(out@ =~= old(out)@ + masked(key, data@).take(i + 1));
        i = i + 1;
    }
    assert(masked(key, data@).take(i as int) =~= masked(key, data@));
}

} // verus!
