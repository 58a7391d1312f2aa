//! The interface that every header encoding offers.

use crate::bits::ternary;
use vstd::prelude::*;

verus! {

/// A header encoding of fixed width.
///
/// The view of a value is the encoding it holds. What `new` computes, how many
/// positions it fills and what they are called are functions of the protocol,
/// given by `encoding`, `width` and `columns`.
pub trait Protocol: View<V = Seq<i8>> + Sized {
    /// The number of positions of every encoding of this protocol.
    spec fn width() -> nat;

    /// The encoding of a raw header.
    spec fn encoding(header: Seq<u8>) -> Seq<i8>;

    /// The names of the positions, in order.
    spec fn columns() -> Seq<Seq<char>>;

    /// An encoding with its sensitive positions set to `0`.
    spec fn anonymized(bits: Seq<i8>) -> Seq<i8>;

    /// Whatever the header holds, its encoding is ternary and fills `width`
    /// positions.
    proof fn lemma_encoding_shape(header: Seq<u8>)
        ensures
            Self::encoding(header).len() == Self::width(),
            ternary(Self::encoding(header)),
    ;

    /// Encodes a raw header.
    fn new(data: &[u8]) -> (header: Self)
        ensures
            header@ == Self::encoding(data@),
    ;

    /// The encoding held.
    fn get_data(&self) -> (data: &Vec<i8>)
        ensures
            data@ == self@,
            data@.len() == Self::width(),
            ternary(data@),
    ;

    /// The names of the positions of an encoding, in order.
    fn get_headers() -> (names: Vec<String>)
        ensures
            names.deep_view() == Self::columns(),
            names@.len() == Self::width(),
    ;

    /// Sets the sensitive positions of the encoding to `0`.
    fn anonymize(&mut self)
        ensures
            final(self)@ == Self::anonymized(old(self)@),
    ;
}

} // verus!
