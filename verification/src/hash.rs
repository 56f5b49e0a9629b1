//! Reading the hash: its 40 nibbles, and the numbers that runs of them spell.

use vstd::prelude::*;

verus! {

/// The nibbles of the bytes, the high one of each byte before the low one.
pub open spec fn nibbles_of(hash: Seq<u8>) -> Seq<u8> {
    Seq::new(
        2 * hash.len(),
        |i: int|
            if i % 2 == 0 {
                hash[i / 2] / 16
            } else {
                hash[i / 2] % 16
            },
    )
}

/// Whether each element is a nibble, a number under 16.
pub open spec fn all_nibbles(nibbles: Seq<u8>) -> bool {
    forall|i: int| 0 <= i < nibbles.len() ==> #[trigger] nibbles[i] < 16
}

/// The number that the nibbles spell as hexadecimal digits, the first one
/// the most significant.
pub open spec fn nibbles_value(nibbles: Seq<u8>) -> nat
    decreases nibbles.len(),
{
    if nibbles.len() == 0 {
        0
    } else {
        nibbles_value(nibbles.drop_last()) * 16 + nibbles.last() as nat
    }
}

/// 16 to the power `k`.
pub open spec fn pow16(k: nat) -> nat
    decreases k,
{
    if k == 0 {
        1
    } else {
        16 * pow16((k - 1) as nat)
    }
}

/// `k` nibbles spell a number under 16 to the power `k`.
pub proof fn lemma_nibbles_value_bound(nibbles: Seq<u8>)
    requires
        all_nibbles(nibbles),
    ensures
        nibbles_value(nibbles) < pow16(nibbles.len()),
    decreases nibbles.len(),
{
    if nibbles.len() > 0 {
        lemma_nibbles_value_bound(nibbles.drop_last());
    }
}

/// Splits each byte of the hash into its two nibbles.
pub fn into_nibbles(hash: [u8; 20]) -> (nibbles: [u8; 40])
    ensures
        nibbles@ == nibbles_of(hash@),
        all_nibbles(nibbles@),
{
    let mut nibbles = [0u8;40];
    let mut i: usize = 0;
    while i < 20
        invariant
            i <= 20,
            forall|k: int| 0 <= k < 2 * i ==> #[trigger] nibbles@[k] == nibbles_of(hash@)[k],
        decreases 20 - i,
    {
        let byte = hash[i];
        assert(byte >> 4 == byte / 16) by (bit_vector);
        assert(byte & 0x0f == byte % 16) by (bit_vector);
        nibbles[i * 2] = byte >> 4;
        nibbles[i * 2 + 1] = byte & 0x0f;
        i = i + 1;
    }
    assert(nibbles@ =~= nibbles_of(hash@));
    nibbles
}

/// The number that `LEN` nibbles from `start` on spell.
pub fn hash_substring_u32<const LEN: usize>(nibbles: &[u8; 40], start: usize) -> (value: u32)
    requires
        LEN <= 8,
        start + LEN <= 40,
        all_nibbles(nibbles@),
    ensures
        value == nibbles_value(nibbles@.subrange(start as int, start + LEN)),
{
    let mut value: u64 = 0;
    let mut k: usize = 0;
    while k < LEN
        invariant
            k <= LEN <= 8,
            start + LEN <= 40,
            all_nibbles(nibbles@),
            value == nibbles_value(nibbles@.subrange(start as int, start + k)),
            value < pow16(k as nat),
        decreases LEN - k,
    {
        let ghost run = nibbles@.subrange(start as int, start + k + 1);
        proof {
            assert(run.drop_last() =~= nibbles@.subrange(start as int, start + k));
            assert(run.last() == nibbles@[start + k]);
            reveal_with_fuel(pow16, 9);
            lemma_nibbles_value_bound(run);
        }
        value = value * 16 + nibbles[start + k] as u64;
        k = k + 1;
    }
    proof {
        reveal_with_fuel(pow16, 9);
    }
    value as u32
}

} // verus!
