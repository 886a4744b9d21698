//! Numbers in big-endian and little-endian bytes.
use vstd::prelude::*;

verus! {

/// The number that the bytes spell, the most significant first.
pub open spec fn be_value(bytes: Seq<u8>) -> int
    decreases bytes.len(),
{
    if bytes.len() == 0 {
        0
    } else {
        256 * be_value(bytes.drop_last()) + bytes.last()
    }
}

/// The number that the bytes spell, the least significant first.
pub open spec fn le_value(bytes: Seq<u8>) -> int
    decreases bytes.len(),
{
    if bytes.len() == 0 {
        0
    } else {
        256 * le_value(bytes.drop_first()) + bytes.first()
    }
}

/// `256` to the power of `n`.
pub open spec fn pow256(n: nat) -> int
    decreases n,
{
    if n == 0 {
        1
    } else {
        256 * pow256((n - 1) as nat)
    }
}

/// The number that `n` bytes spell is less than `256` to the power of `n`.
pub proof fn lemma_be_value_bound(bytes: Seq<u8>)
    ensures
        0 <= be_value(bytes) < pow256(bytes.len()),
    decreases bytes.len(),
{
    if bytes.len() > 0 {
        lemma_be_value_bound(bytes.drop_last());
    }
}

proof fn lemma_pow256_monotone(few: nat, many: nat)
    requires
        few <= many,
    ensures
        1 <= pow256(few) <= pow256(many),
    decreases many,
{
    if few < many {
        lemma_pow256_monotone(few, (many - 1) as nat);
    } else if few > 0 {
        lemma_pow256_monotone((few - 1) as nat, (many - 1) as nat);
    }
}

proof fn lemma_pow256_values()
    ensures
        pow256(2) == 65536,
        pow256(4) == 0x1_0000_0000,
        pow256(8) == 0x1_0000_0000_0000_0000,
{
    reveal_with_fuel(pow256, 9);
}

/// Reads the number that the bytes from `start` to `end` spell.
pub fn read_be(bytes: &[u8], start: usize, end: usize) -> (value: u64)
    requires
        start <= end <= bytes@.len(),
        end - start <= 8,
    ensures
        value == be_value(bytes@.subrange(start as int, end as int)),
{
    let mut value: u64 = 0;
    let mut at: usize = start;
    assert(bytes@.subrange(start as int, start as int) =~= Seq::<u8>::empty());
    while at < end
        invariant
            start <= at <= end <= bytes@.len(),
            end - start <= 8,
            value == be_value(bytes@.subrange(start as int, at as int)),
        decreases end - at,
    {
        let ghost before = bytes@.subrange(start as int, at as int);
        let ghost after = bytes@.subrange(start as int, at + 1);
        proof {
            assert(after.drop_last() =~= before);
            lemma_be_value_bound(before);
            lemma_pow256_monotone(before.len(), 7);
            assert(pow256(7) == 0x100_0000_0000_0000) by {
                reveal_with_fuel(pow256, 8);
            }
        }
        value = value * 256 + bytes[at] as u64;
        at = at + 1;
    }
    value
}

/// Reads a big-endian `u32` at the start of the bytes.
pub fn read_u32_be_from(bytes: &[u8]) -> (value: u32)
    requires
        bytes@.len() >= 4,
    ensures
        value == be_value(bytes@.subrange(0, 4)),
{
    proof {
        lemma_be_value_bound(bytes@.subrange(0, 4));
        lemma_pow256_values();
    }
    read_be(bytes, 0, 4) as u32
}

/// Reads a big-endian `u64` at the start of the bytes.
pub fn read_u64_be_from(bytes: &[u8]) -> (value: u64)
    requires
        bytes@.len() >= 8,
    ensures
        value == be_value(bytes@.subrange(0, 8)),
{
    read_be(bytes, 0, 8)
}

/// A number in so many bytes, the most significant first.
pub open spec fn be_bytes(value: int, size: nat) -> Seq<u8>
    decreases size,
{
    if size == 0 {
        Seq::empty()
    } else {
        be_bytes(value / 256, (size - 1) as nat).push((value % 256) as u8)
    }
}

/// Bytes that are enough for a number spell it.
pub proof fn lemma_be_bytes(value: int, size: nat)
    requires
        0 <= value < pow256(size),
    ensures
        be_bytes(value, size).len() == size,
        be_value(be_bytes(value, size)) == value,
    decreases size,
{
    if size > 0 {
        lemma_be_bytes(value / 256, (size - 1) as nat);
        let bytes = be_bytes(value, size);
        assert(bytes.drop_last() =~= be_bytes(value / 256, (size - 1) as nat));
    }
}

/// Four bytes of a number are those of the number in 32 bits.
pub proof fn lemma_four_be_bytes(value: u32)
    ensures
        be_bytes(value as int, 4) == u32_be_bytes(value),
{
    reveal_with_fuel(be_bytes, 5);
    let v = value as int;
    assert(v / 256 / 256 == v / 0x1_0000 && v / 256 / 256 / 256 == v / 0x100_0000);
    assert(be_bytes(v, 4) =~= u32_be_bytes(value));
}

/// The bytes of a big-endian `u32`.
pub open spec fn u32_be_bytes(value: u32) -> Seq<u8> {
    seq![
        (value / 0x100_0000) as u8,
        ((value / 0x1_0000) % 256) as u8,
        ((value / 0x100) % 256) as u8,
        (value % 256) as u8,
    ]
}

/// Appends a `u32` in big-endian bytes.
pub fn push_u32_be(bytes: &mut Vec<u8>, value: u32)
    ensures
        final(bytes)@ == old(bytes)@ + u32_be_bytes(value),
{
    bytes.push((value / 0x100_0000) as u8);
    bytes.push(((value / 0x1_0000) % 256) as u8);
    bytes.push(((value / 0x100) % 256) as u8);
    bytes.push((value % 256) as u8);
    assert(bytes@ =~= old(bytes)@ + u32_be_bytes(value));
}

} // verus!
