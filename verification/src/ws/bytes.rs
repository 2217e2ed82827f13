//! Unsigned integers in network byte order.

use vstd::prelude::*;

verus! {

/// The number that `bytes` denotes when read most significant byte first.
pub open spec fn be_value(bytes: Seq<u8>) -> nat
    decreases bytes.len(),
{
    if bytes.len() == 0 {
        0
    } else {
        be_value(bytes.drop_last()) * 256 + bytes.last() as nat
    }
}

/// The `width` bytes that denote `value` most significant byte first. Digits
/// of `value` beyond `width` bytes are left out.
pub open spec fn be_bytes(value: nat, width: nat) -> Seq<u8>
    decreases width,
{
    if width == 0 {
        Seq::empty()
    } else {
        be_bytes(value / 256, (width - 1) as nat).push((value % 256) as u8)
    }
}

/// `256` to the power of `width`: the number of values that `width` bytes
/// can denote.
pub open spec fn be_limit(width: nat) -> nat
    decreases width,
{
    if width == 0 {
        1
    } else {
        256 * be_limit((width - 1) as nat)
    }
}

/// `be_bytes` yields exactly `width` bytes.
pub proof fn lemma_be_bytes_len(value: nat, width: nat)
    ensures
        be_bytes(value, width).len() == width,
    decreases width,
{
    if width > 0 {
        lemma_be_bytes_len(value / 256, (width - 1) as nat);
    }
}

/// What a sequence of bytes denotes is below the limit of its length.
pub proof fn lemma_be_value_bound(bytes: Seq<u8>)
    ensures
        be_value(bytes) < be_limit(bytes.len()),
    decreases bytes.len(),
{
    if bytes.len() > 0 {
        lemma_be_value_bound(bytes.drop_last());
    }
}

/// Reading back the bytes written for a value that fits returns the value.
pub proof fn lemma_be_value_of_bytes(value: nat, width: nat)
    requires
        value < be_limit(width),
    ensures
        be_value(be_bytes(value, width)) == value,
    decreases width,
{
    if width > 0 {
        let rest = be_bytes(value / 256, (width - 1) as nat);
        lemma_be_value_of_bytes(value / 256, (width - 1) as nat);
        assert(be_bytes(value, width).drop_last() =~= rest);
    }
}

/// The limits of the widths up to eight bytes, as numbers.
pub proof fn lemma_be_limit_values()
    ensures
        be_limit(0) == 1,
        be_limit(1) == 0x100,
        be_limit(2) == 0x1_0000,
        be_limit(3) == 0x100_0000,
        be_limit(4) == 0x1_0000_0000,
        be_limit(5) == 0x100_0000_0000,
        be_limit(6) == 0x1_0000_0000_0000,
        be_limit(7) == 0x100_0000_0000_0000,
        be_limit(8) == 0x1_0000_0000_0000_0000,
{
    reveal_with_fuel(be_limit, 9);
}

/// Reads the `width` bytes of `input` that start at `offset` as one number,
/// most significant byte first.
pub fn read_be(input: &[u8], offset: usize, width: usize) -> (value: u64)
    requires
        width <= 8,
        offset + width <= input.len(),
    ensures
        value == be_value(input@.subrange(offset as int, offset + width)),
{
    let mut value: u64 = 0;
    let mut i: usize = 0;
    while i < width
        invariant
            i <= width <= 8,
            offset + width <= input.len(),
            value == be_value(input@.subrange(offset as int, offset + i)),
        decreases width - i,
    {
        let byte: u8 = input[offset + i];
        proof {
            let read = input@.subrange(offset as int, offset + i);
            let next = input@.subrange(offset as int, offset + i + 1);
            assert(next.drop_last() =~= read);
            assert(next.last() == byte);
            lemma_be_value_bound(read);
            lemma_be_limit_values();
            assert(be_limit(i as nat) <= 0x100_0000_0000_0000) by {
                assert(i == 0 || i == 1 || i == 2 || i == 3 || i == 4 || i == 5 || i == 6 || i == 7);
            }
        }
        value = value * 256 + byte as u64;
        i = i + 1;
    }
    value
}

/// Appends to `out` the `width` bytes that denote `value`, most significant
/// byte first.
pub fn write_be(out: &mut Vec<u8>, value: u64, width: usize)
    ensures
        final(out)@ == old(out)@ + be_bytes(value as nat, width as nat),
    decreases width,
{
    if width > 0 {
        write_be(out, value / 256, width - 1);
        out.push((value % 256) as u8);
        assert(out@ =~= old(out)@ + be_bytes(value as nat, width as nat));
    }
}

} // verus!
