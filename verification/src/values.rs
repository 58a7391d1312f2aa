//! What the bits of an encoding mean: a run of positions that stands for a
//! header field holds the binary digits of the field's value, most significant
//! first.

use crate::bits::{bit_at, byte_bits, lemma_unpacked_step, unpacked};
use vstd::arithmetic::div_mod::lemma_fundamental_div_mod_converse;
use vstd::arithmetic::power2::{lemma2_to64, lemma_pow2_pos, lemma_pow2_unfold, pow2};
use vstd::prelude::*;

verus! {

/// Every position holds `0` or `1`.
pub open spec fn binary(bits: Seq<i8>) -> bool {
    forall|i: int| 0 <= i < bits.len() ==> 0 <= #[trigger] bits[i] <= 1
}

/// The number that `bits` denote in binary, most significant bit first.
pub open spec fn bits_value(bits: Seq<i8>) -> int
    decreases bits.len(),
{
    if bits.len() == 0 {
        0
    } else {
        2 * bits_value(bits.drop_last()) + bits.last()
    }
}

/// The number that `bytes` denote in network byte order.
pub open spec fn be_value(bytes: Seq<u8>) -> int
    decreases bytes.len(),
{
    if bytes.len() == 0 {
        0
    } else {
        256 * be_value(bytes.drop_last()) + bytes.last()
    }
}

/// Bits written behind others count behind them: the front is shifted by the
/// length of the back.
pub proof fn lemma_bits_value_append(front: Seq<i8>, back: Seq<i8>)
    ensures
        bits_value(front + back) == bits_value(front) * pow2(back.len()) + bits_value(back),
    decreases back.len(),
{
    lemma2_to64();
    if back.len() == 0 {
        assert(front + back =~= front);
    } else {
        let shorter = back.drop_last();
        lemma_bits_value_append(front, shorter);
        assert((front + back).drop_last() =~= front + shorter);
        lemma_pow2_unfold(back.len());
        assert(bits_value(front) * (2 * pow2(shorter.len())) == 2 * (bits_value(front) * pow2(
            shorter.len(),
        ))) by (nonlinear_arith);
    }
}

/// Binary digits denote a number below the power of two of their count.
pub proof fn lemma_bits_value_bound(bits: Seq<i8>)
    requires
        binary(bits),
    ensures
        0 <= bits_value(bits) < pow2(bits.len()),
    decreases bits.len(),
{
    lemma2_to64();
    if bits.len() > 0 {
        let shorter = bits.drop_last();
        assert forall|i: int| 0 <= i < shorter.len() implies 0 <= #[trigger] shorter[i] <= 1 by {
            assert(shorter[i] == bits[i]);
        }
        lemma_bits_value_bound(shorter);
        lemma_pow2_unfold(bits.len());
        assert(0 <= bits[bits.len() - 1] <= 1);
    }
}

/// One more bit doubles the number and adds the bit.
pub proof fn lemma_bits_value_step(bits: Seq<i8>, k: int)
    requires
        0 <= k < bits.len(),
    ensures
        bits_value(bits.take(k + 1)) == 2 * bits_value(bits.take(k)) + bits[k],
{
    assert(bits.take(k + 1).drop_last() =~= bits.take(k));
}

/// The eight bits of a byte denote the byte: each bit more brings the number
/// from the byte without its last `8 - k` bits to the byte without its last
/// `7 - k` bits.
pub proof fn lemma_byte_value(byte: u8)
    ensures
        bits_value(byte_bits(byte)) == byte,
{
    lemma2_to64();
    let bits = byte_bits(byte);
    let b = byte as int;
    assert(bit_at(byte, 0) == (b / 128) % 2 && bit_at(byte, 1) == (b / 64) % 2);
    assert(bit_at(byte, 2) == (b / 32) % 2 && bit_at(byte, 3) == (b / 16) % 2);
    assert(bit_at(byte, 4) == (b / 8) % 2 && bit_at(byte, 5) == (b / 4) % 2);
    assert(b / 1 == b);
    assert(bit_at(byte, 6) == (b / 2) % 2 && bit_at(byte, 7) == b % 2);
    assert(bits_value(bits.take(0)) == 0);
    lemma_bits_value_step(bits, 0);
    lemma_bits_value_step(bits, 1);
    lemma_bits_value_step(bits, 2);
    lemma_bits_value_step(bits, 3);
    lemma_bits_value_step(bits, 4);
    lemma_bits_value_step(bits, 5);
    lemma_bits_value_step(bits, 6);
    lemma_bits_value_step(bits, 7);
    assert(bits_value(bits.take(1)) == b / 128);
    assert(bits_value(bits.take(2)) == b / 64);
    assert(bits_value(bits.take(3)) == b / 32);
    assert(bits_value(bits.take(4)) == b / 16);
    assert(bits_value(bits.take(5)) == b / 8);
    assert(bits_value(bits.take(6)) == b / 4);
    assert(bits_value(bits.take(7)) == b / 2);
    assert(bits_value(bits.take(8)) == b);
    assert(bits.take(8) =~= bits);
}

/// The bits of unpacked bytes denote the number that the bytes denote in
/// network byte order.
pub proof fn lemma_unpacked_value(bytes: Seq<u8>)
    ensures
        bits_value(unpacked(bytes)) == be_value(bytes),
    decreases bytes.len(),
{
    if bytes.len() > 0 {
        let last = bytes.len() - 1;
        lemma_unpacked_value(bytes.drop_last());
        lemma_unpacked_step(bytes, last);
        assert(bytes.take(last + 1) =~= bytes);
        assert(bytes.take(last) =~= bytes.drop_last());
        lemma_bits_value_append(unpacked(bytes.drop_last()), byte_bits(bytes[last]));
        lemma_byte_value(bytes[last]);
        lemma2_to64();
        assert(byte_bits(bytes[last]).len() == 8);
        assert(bits_value(unpacked(bytes)) == bits_value(unpacked(bytes.drop_last())) * 256
            + bytes[last]);
    } else {
        assert(unpacked(bytes) =~= Seq::<i8>::empty());
    }
}

/// The value of the field of `width` bits that starts at bit `start` of
/// `bytes`: the number of the bytes in network byte order, shifted right by
/// the count of bits behind the field and reduced to the width of the field.
pub open spec fn field_value(bytes: Seq<u8>, start: int, width: int) -> int {
    (be_value(bytes) / pow2((8 * bytes.len() - start - width) as nat) as int) % pow2(
        width as nat,
    ) as int
}

/// The positions of unpacked bytes that stand for a field hold the binary
/// digits of the field's value, most significant first.
pub proof fn lemma_field_value(bytes: Seq<u8>, start: int, width: int)
    requires
        0 <= start,
        0 <= width,
        start + width <= 8 * bytes.len(),
    ensures
        bits_value(unpacked(bytes).subrange(start, start + width)) == field_value(
            bytes,
            start,
            width,
        ),
{
    let all = unpacked(bytes);
    let head = all.subrange(0, start);
    let field = all.subrange(start, start + width);
    let tail = all.subrange(start + width, all.len() as int);
    assert(all =~= (head + field) + tail);
    lemma_unpacked_value(bytes);
    lemma_bits_value_append(head + field, tail);
    lemma_bits_value_append(head, field);
    lemma_bits_value_bound(tail);
    lemma_bits_value_bound(field);
    lemma_pow2_pos(tail.len());
    lemma_pow2_pos(field.len());
    lemma_fundamental_div_mod_converse(
        bits_value(all),
        pow2(tail.len()) as int,
        bits_value(head + field),
        bits_value(tail),
    );
    lemma_fundamental_div_mod_converse(
        bits_value(head + field),
        pow2(field.len()) as int,
        bits_value(head),
        bits_value(field),
    );
}

/// Where an encoding starts with the unpacked fixed part of a header, each
/// field of the fixed part holds the binary digits of the field's value,
/// whatever follows the fixed part.
pub proof fn lemma_fixed_field_value(fixed: Seq<u8>, rest: Seq<i8>, start: int, width: int)
    requires
        0 <= start,
        0 <= width,
        start + width <= 8 * fixed.len(),
    ensures
        bits_value((unpacked(fixed) + rest).subrange(start, start + width)) == field_value(
            fixed,
            start,
            width,
        ),
{
    assert((unpacked(fixed) + rest).subrange(start, start + width) =~= unpacked(fixed).subrange(
        start,
        start + width,
    ));
    lemma_field_value(fixed, start, width);
}

} // verus!
