//! Normalises a variable-length block of header options to a fixed width.

use crate::bits::{absent, lemma_unpacked_ternary, push_absent, push_bits, ternary, unpacked};
use vstd::prelude::*;

verus! {

/// Number of option bytes that an encoding has room for.
pub const OPTIONS_BYTES: usize = 40;

/// Number of positions that a block of options always occupies.
pub const OPTIONS_WIDTH: usize = 320;

/// The option bytes that are encoded: all of them, or the first
/// `OPTIONS_BYTES` where there are more.
pub open spec fn kept_options(options: Seq<u8>) -> Seq<u8> {
    if options.len() <= OPTIONS_BYTES {
        options
    } else {
        options.take(OPTIONS_BYTES as int)
    }
}

/// The fixed-width encoding of a block of options: the bits of the kept bytes
/// in wire order, then absent markers up to `OPTIONS_WIDTH`.
pub open spec fn options_bits(options: Seq<u8>) -> Seq<i8> {
    unpacked(kept_options(options)) + absent(
        (OPTIONS_WIDTH - 8 * kept_options(options).len()) as nat,
    )
}

/// Encodes a block of raw option bytes on `OPTIONS_WIDTH` positions.
///
/// Bytes beyond the first `OPTIONS_BYTES` are dropped, so that the result
/// never grows past its width.
pub fn get_options_bits(options: &[u8]) -> (bits: Vec<i8>)
    ensures
        bits@ == options_bits(options@),
        bits@.len() == OPTIONS_WIDTH,
        ternary(bits@),
{
    let kept: usize = if options.len() <= OPTIONS_BYTES {
        options.len()
    } else {
        OPTIONS_BYTES
    };
    let mut data: Vec<i8> = Vec::new();
    push_bits(&mut data, options, kept);
    push_absent(&mut data, OPTIONS_WIDTH - 8 * kept);
    proof {
        lemma_unpacked_ternary(kept_options(options@));
    }
    data
}

} // verus!
