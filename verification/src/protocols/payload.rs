//! The encoding of raw payload bytes.

use crate::bits::{absent, lemma_unpacked_ternary, push_absent, push_bits, ternary, unpacked};
use crate::protocols::dyn_protocols::Protocol;
use crate::schema::{
    contiguous, layout_column_names, layout_columns, layout_width, lemma_contiguous_width,
    FieldLayout,
};
use vstd::prelude::*;

verus! {

/// The size in bytes of the largest frame: a payload of this size or more is
/// not encoded.
pub const PAYLOAD_LIMIT: usize = 1514;

/// The number of positions of a payload encoding: eight for each byte of the
/// largest frame.
pub const PAYLOAD_WIDTH: usize = 12112;

/// The encoding of a payload.
///
/// A payload below `PAYLOAD_LIMIT` bytes encodes as its bits in wire order,
/// then absent markers up to `PAYLOAD_WIDTH`; a longer one as absent markers
/// throughout.
pub open spec fn payload_encoding(payload: Seq<u8>) -> Seq<i8> {
    if payload.len() < PAYLOAD_LIMIT {
        unpacked(payload) + absent((PAYLOAD_WIDTH - 8 * payload.len()) as nat)
    } else {
        absent(PAYLOAD_WIDTH as nat)
    }
}

/// The one field of a payload.
pub open spec fn payload_fields() -> Seq<FieldLayout> {
    seq![FieldLayout { name: "Payload_bit", start: 0, width: 12112 }]
}

/// The encoding of one payload.
#[derive(PartialEq, Debug)]
pub struct PayloadHeader {
    data: Vec<i8>,
}

impl View for PayloadHeader {
    type V = Seq<i8>;

    closed spec fn view(&self) -> Seq<i8> {
        self.data@
    }
}

impl Clone for PayloadHeader {
    fn clone(&self) -> (copy: Self)
        ensures
            copy@ == self@,
    {
        proof {
            use_type_invariant(self);
        }
        let data = self.data.clone();
        PayloadHeader { data }
    }
}

impl Default for PayloadHeader {
    /// The encoding of a payload that is not there: absent markers throughout.
    fn default() -> (header: Self)
        ensures
            header@ == absent(PAYLOAD_WIDTH as nat),
    {
        let mut data: Vec<i8> = Vec::new();
        push_absent(&mut data, PAYLOAD_WIDTH);
        PayloadHeader { data }
    }
}

impl PayloadHeader {
    #[verifier::type_invariant]
    spec fn well_formed(&self) -> bool {
        self.data@.len() == PAYLOAD_WIDTH && ternary(self.data@)
    }

    /// The one field of a payload.
    pub fn layout() -> (fields: Vec<FieldLayout>)
        ensures
            fields@ == payload_fields(),
    {
        let mut fields: Vec<FieldLayout> = Vec::new();
        fields.push(FieldLayout { name: "Payload_bit", start: 0, width: 12112 });
        fields
    }
}

impl Protocol for PayloadHeader {
    open spec fn width() -> nat {
        PAYLOAD_WIDTH as nat
    }

    open spec fn encoding(header: Seq<u8>) -> Seq<i8> {
        payload_encoding(header)
    }

    open spec fn columns() -> Seq<Seq<char>> {
        layout_columns(payload_fields())
    }

    /// A payload encoding is left as it is.
    open spec fn anonymized(bits: Seq<i8>) -> Seq<i8> {
        bits
    }

    proof fn lemma_encoding_shape(header: Seq<u8>) {
        lemma_unpacked_ternary(header);
    }

    /// Encodes the bytes of `packet`.
    fn new(packet: &[u8]) -> (header: PayloadHeader)
        ensures
            header@ == payload_encoding(packet@),
            packet@.len() >= PAYLOAD_LIMIT ==> header@ == absent(PAYLOAD_WIDTH as nat),
    {
        let len = packet.len();
        if len < PAYLOAD_LIMIT {
            let mut data: Vec<i8> = Vec::with_capacity(PAYLOAD_WIDTH);
            push_bits(&mut data, packet, len);
            push_absent(&mut data, PAYLOAD_WIDTH - 8 * len);
            proof {
                lemma_unpacked_ternary(packet@);
            }
            PayloadHeader { data }
        } else {
            PayloadHeader::default()
        }
    }

    /// The encoding held: ternary, and `PAYLOAD_WIDTH` positions wide.
    fn get_data(&self) -> (data: &Vec<i8>)
        ensures
            data@ == self@,
            data@.len() == PAYLOAD_WIDTH,
            ternary(data@),
    {
        proof {
            use_type_invariant(self);
        }
        &self.data
    }

    /// The names of the positions: the field's name with the indices of its
    /// positions.
    fn get_headers() -> (names: Vec<String>)
        ensures
            names.deep_view() == layout_columns(payload_fields()),
            names@.len() == PAYLOAD_WIDTH,
    {
        let fields = PayloadHeader::layout();
        proof {
            lemma_payload_layout();
        }
        layout_column_names(&fields)
    }

    /// Leaves the encoding as it is.
    fn anonymize(&mut self)
        ensures
            final(self)@ == old(self)@,
    {
    }
}

/// The payload field covers the whole encoding.
pub proof fn lemma_payload_layout()
    ensures
        contiguous(payload_fields()),
        layout_width(payload_fields()) == PAYLOAD_WIDTH,
{
    lemma_contiguous_width(payload_fields());
}

} // verus!
