use vstd::prelude::*;

verus! {

/// The value of a byte string read as a big-endian unsigned number.
pub open spec fn be_value(bytes: Seq<u8>) -> nat
    decreases bytes.len(),
{
    if bytes.len() == 0 {
        0
    } else {
        be_value(bytes.drop_last()) * 256 + bytes.last() as nat
    }
}

/// Whether bit `bit` (0 is the least significant) of `value` is one.
pub open spec fn bit_of(value: u8, bit: u8) -> bool {
    (value >> bit) & 1u8 == 1u8
}

/// Reads `bytes` as a big-endian number.
pub fn concat_bytes(bytes: &[u8]) -> (r: usize)
    requires
        be_value(bytes@) <= usize::MAX,
    ensures
        r as nat == be_value(bytes@),
{
    let mut acc: usize = 0;
    let mut k: usize = 0;
    while k < bytes.len()
        invariant
            k <= bytes@.len(),
            be_value(bytes@) <= usize::MAX,
            acc as nat == be_value(bytes@.subrange(0, k as int)),
        decreases bytes@.len() - k,
    {
        proof {
            lemma_be_value_prefix_le(bytes@, k as int + 1);
            let next = bytes@.subrange(0, k as int + 1);
            assert(next.drop_last() =~= bytes@.subrange(0, k as int));
        }
        acc = acc * 256 + bytes[k] as usize;
        k = k + 1;
    }
    assert(bytes@.subrange(0, k as int) =~= bytes@);
    acc
}

/// A prefix never reads as a larger number than the whole.
proof fn lemma_be_value_prefix_le(bytes: Seq<u8>, n: int)
    requires
        0 <= n <= bytes.len(),
    ensures
        be_value(bytes.subrange(0, n)) <= be_value(bytes),
    decreases bytes.len(),
{
    if n < bytes.len() {
        let shorter = bytes.drop_last();
        lemma_be_value_prefix_le(shorter, n);
        assert(shorter.subrange(0, n) =~= bytes.subrange(0, n));
    } else {
        assert(bytes.subrange(0, n) =~= bytes);
    }
}

/// Whether bit `bit` (0 is the least significant) of `value` is set.
pub fn is_bit_set(value: u8, bit: usize) -> (r: bool)
    requires
        bit < 8,
    ensures
        r == bit_of(value, bit as u8),
{
    let b = bit as u8;
    let r = (value & (1u8 << b)) != 0;
    assert(((value & (1u8 << b)) != 0) == ((value >> b) & 1u8 == 1u8)) by (bit_vector)
        requires
            b < 8,
    ;
    r
}

} // verus!
