//! Bit-level building blocks: unpacking bytes most significant bit first,
//! padding with the absent marker, and zeroing ranges.

use vstd::arithmetic::power2::pow2;
use vstd::bits::lemma_u8_shr_is_div;
use vstd::prelude::*;

verus! {

/// Marks a position whose field the packet does not carry.
pub const ABSENT: i8 = -1;

/// Bit `k` of `byte`, counted from the most significant bit, as `0` or `1`.
pub open spec fn bit_at(byte: u8, k: int) -> i8 {
    if (byte as int / pow2((7 - k) as nat) as int) % 2 == 1 {
        1i8
    } else {
        0i8
    }
}

/// The bits of `bytes` in wire order: byte by byte, each most significant bit first.
pub open spec fn unpacked(bytes: Seq<u8>) -> Seq<i8> {
    Seq::new(8 * bytes.len(), |i: int| bit_at(bytes[i / 8], i % 8))
}

/// `n` positions that all hold the absent marker.
pub open spec fn absent(n: nat) -> Seq<i8> {
    Seq::new(n, |i: int| ABSENT)
}

/// Every position holds `-1`, `0` or `1`.
pub open spec fn ternary(bits: Seq<i8>) -> bool {
    forall|i: int| 0 <= i < bits.len() ==> -1 <= #[trigger] bits[i] <= 1
}

/// Computes bit `k` of `byte`, counted from the most significant bit.
pub fn bit(byte: u8, k: u8) -> (b: i8)
    requires
        k < 8,
    ensures
        b == bit_at(byte, k as int),
{
    let shift: u8 = 7 - k;
    let shifted: u8 = byte >> shift;
    let low: u8 = shifted & 1;
    proof {
        lemma_u8_shr_is_div(byte, shift);
        assert(shifted & 1 == shifted % 2) by (bit_vector);
    }
    if low == 1 {
        1
    } else {
        0
    }
}

/// The bits of one byte, most significant bit first.
pub open spec fn byte_bits(byte: u8) -> Seq<i8> {
    Seq::new(8, |j: int| bit_at(byte, j))
}

/// Unpacking one more byte appends the eight bits of that byte.
pub proof fn lemma_unpacked_step(bytes: Seq<u8>, i: int)
    requires
        0 <= i < bytes.len(),
    ensures
        unpacked(bytes.take(i + 1)) == unpacked(bytes.take(i)) + byte_bits(bytes[i]),
{
    let shorter = unpacked(bytes.take(i));
    let longer = unpacked(bytes.take(i + 1));
    assert forall|j: int| 0 <= j < longer.len() implies longer[j] == (shorter + byte_bits(
        bytes[i],
    ))[j] by {
        if j < 8 * i {
            assert(bytes.take(i + 1)[j / 8] == bytes.take(i)[j / 8]);
        } else {
            assert(j / 8 == i);
            assert(byte_bits(bytes[i])[j - 8 * i] == bit_at(bytes[i], j % 8));
        }
    }
    assert(longer =~= shorter + byte_bits(bytes[i]));
}

/// Appends the bits of the first `count` bytes of `bytes` to `out`, in wire order.
pub fn push_bits(out: &mut Vec<i8>, bytes: &[u8], count: usize)
    requires
        count <= bytes@.len(),
    ensures
        final(out)@ == old(out)@ + unpacked(bytes@.take(count as int)),
{
    let ghost before = out@;
    let mut i: usize = 0;
    while i < count
        invariant
            i <= count <= bytes@.len(),
            out@ == before + unpacked(bytes@.take(i as int)),
        decreases count - i,
    {
        let byte = bytes[i];
        let ghost done = out@;
        let mut k: u8 = 0;
        while k < 8
            invariant
                k <= 8,
                out@ == done + byte_bits(byte).take(k as int),
            decreases 8 - k,
        {
            out.push(bit(byte, k));
            k += 1;
        }
        proof {
            lemma_unpacked_step(bytes@, i as int);
        }
        i += 1;
    }
}

/// Appends `n` absent markers to `out`.
pub fn push_absent(out: &mut Vec<i8>, n: usize)
    ensures
        final(out)@ == old(out)@ + absent(n as nat),
{
    let ghost before = out@;
    let mut i: usize = 0;
    while i < n
        invariant
            i <= n,
            out@ == before + absent(i as nat),
        decreases n - i,
    {
        out.push(ABSENT);
        i += 1;
    }
}

/// `bits` with every position of `[from, to)` set to `0`.
pub open spec fn zeroed(bits: Seq<i8>, from: int, to: int) -> Seq<i8> {
    Seq::new(bits.len(), |i: int| if from <= i < to { 0i8 } else { bits[i] })
}

/// Sets the positions `start ..= end` of `data` to `0`.
pub fn zero_range(data: &mut Vec<i8>, start: usize, end: usize)
    requires
        start <= end + 1,
        end < old(data)@.len(),
    ensures
        final(data)@ == zeroed(old(data)@, start as int, end + 1),
    no_unwind
{
    let ghost before = data@;
    let mut i: usize = start;
    while i <= end
        invariant
            start <= i <= end + 1,
            end < data.len(),
            data@ == zeroed(before, start as int, i as int),
        decreases end + 1 - i,
    {
        data[i] = 0;
        i += 1;
    }
}

/// Unpacked bytes hold `0` and `1` only.
pub proof fn lemma_unpacked_ternary(bytes: Seq<u8>)
    ensures
        ternary(unpacked(bytes)),
        unpacked(bytes).len() == 8 * bytes.len(),
{
}

/// Zeroing positions keeps an encoding ternary.
pub proof fn lemma_zeroed_ternary(bits: Seq<i8>, from: int, to: int)
    requires
        ternary(bits),
    ensures
        ternary(zeroed(bits, from, to)),
        zeroed(bits, from, to).len() == bits.len(),
{
}

} // verus!
