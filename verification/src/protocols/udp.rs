//! The UDP header encoding.

use crate::bits::{
    absent, lemma_unpacked_ternary, lemma_zeroed_ternary, push_absent, push_bits, ternary,
    unpacked, zero_range, zeroed,
};
use crate::protocols::dyn_protocols::Protocol;
use crate::schema::{
    contiguous, layout_column_names, layout_columns, layout_width, lemma_contiguous_width,
    FieldLayout,
};
use crate::values::{bits_value, field_value, lemma_fixed_field_value};
use crate::wire::{udp_accepts, UDP_HEADER_LEN};
use vstd::prelude::*;

verus! {

/// The number of positions of a UDP encoding.
pub const UDP_WIDTH: usize = 64;

/// The encoding of a UDP header.
///
/// A buffer shorter than the header encodes as absent markers throughout.
/// Otherwise the four fields follow one another on the wire without gaps,
/// most significant bit first, so the encoding is the 64 bits of the first 8
/// bytes in wire order.
pub open spec fn udp_encoding(header: Seq<u8>) -> Seq<i8> {
    if header.len() >= UDP_HEADER_LEN {
        unpacked(header.take(UDP_HEADER_LEN as int))
    } else {
        absent(UDP_WIDTH as nat)
    }
}

/// The fields of a UDP header, in wire order.
pub open spec fn udp_fields() -> Seq<FieldLayout> {
    seq![
        FieldLayout { name: "udp_sport", start: 0, width: 16 },
        FieldLayout { name: "udp_dport", start: 16, width: 16 },
        FieldLayout { name: "udp_len", start: 32, width: 16 },
        FieldLayout { name: "udp_cksum", start: 48, width: 16 },
    ]
}

/// The encoding of one UDP header.
#[derive(PartialEq, Debug)]
pub struct UdpHeader {
    data: Vec<i8>,
}

impl View for UdpHeader {
    type V = Seq<i8>;

    closed spec fn view(&self) -> Seq<i8> {
        self.data@
    }
}

impl Clone for UdpHeader {
    fn clone(&self) -> (copy: Self)
        ensures
            copy@ == self@,
    {
        proof {
            use_type_invariant(self);
        }
        let data = self.data.clone();
        UdpHeader { data }
    }
}

impl Default for UdpHeader {
    /// The encoding of a header that is not there: absent markers throughout.
    fn default() -> (header: Self)
        ensures
            header@ == absent(UDP_WIDTH as nat),
    {
        let mut data: Vec<i8> = Vec::new();
        push_absent(&mut data, UDP_WIDTH);
        UdpHeader { data }
    }
}

impl UdpHeader {
    #[verifier::type_invariant]
    spec fn well_formed(&self) -> bool {
        self.data@.len() == UDP_WIDTH && ternary(self.data@)
    }

    /// The fields of a UDP header, in wire order.
    pub fn layout() -> (fields: Vec<FieldLayout>)
        ensures
            fields@ == udp_fields(),
    {
        let mut fields: Vec<FieldLayout> = Vec::new();
        fields.push(FieldLayout { name: "udp_sport", start: 0, width: 16 });
        fields.push(FieldLayout { name: "udp_dport", start: 16, width: 16 });
        fields.push(FieldLayout { name: "udp_len", start: 32, width: 16 });
        fields.push(FieldLayout { name: "udp_cksum", start: 48, width: 16 });
        fields
    }

    /// Sets the positions `start ..= end` of the encoding to `0`.
    pub fn remove(&mut self, start: usize, end: usize)
        requires
            start <= end + 1,
            end < UDP_WIDTH,
        ensures
            final(self)@ == zeroed(old(self)@, start as int, end + 1),
    {
        proof {
            use_type_invariant(&*self);
            lemma_zeroed_ternary(self.data@, start as int, end + 1);
        }
        zero_range(&mut self.data, start, end);
    }
}

impl Protocol for UdpHeader {
    open spec fn width() -> nat {
        UDP_WIDTH as nat
    }

    open spec fn encoding(header: Seq<u8>) -> Seq<i8> {
        udp_encoding(header)
    }

    open spec fn columns() -> Seq<Seq<char>> {
        layout_columns(udp_fields())
    }

    /// A UDP encoding holds nothing sensitive.
    open spec fn anonymized(bits: Seq<i8>) -> Seq<i8> {
        bits
    }

    proof fn lemma_encoding_shape(header: Seq<u8>) {
        if header.len() >= UDP_HEADER_LEN {
            lemma_unpacked_ternary(header.take(UDP_HEADER_LEN as int));
        }
    }

    /// Encodes the UDP header at the start of `packet`.
    fn new(packet: &[u8]) -> (header: UdpHeader)
        ensures
            header@ == udp_encoding(packet@),
            packet@.len() < UDP_HEADER_LEN ==> header@ == absent(UDP_WIDTH as nat),
    {
        if udp_accepts(packet) {
            let mut data: Vec<i8> = Vec::with_capacity(UDP_WIDTH);
            push_bits(&mut data, packet, UDP_HEADER_LEN);
            proof {
                lemma_unpacked_ternary(packet@.take(UDP_HEADER_LEN as int));
            }
            UdpHeader { data }
        } else {
            UdpHeader::default()
        }
    }

    /// The encoding held: ternary, and `UDP_WIDTH` positions wide.
    fn get_data(&self) -> (data: &Vec<i8>)
        ensures
            data@ == self@,
            data@.len() == UDP_WIDTH,
            ternary(data@),
    {
        proof {
            use_type_invariant(self);
        }
        &self.data
    }

    /// The names of the positions: for each field of the layout, in order,
    /// the field's name with the indices of its positions.
    fn get_headers() -> (names: Vec<String>)
        ensures
            names.deep_view() == layout_columns(udp_fields()),
            names@.len() == UDP_WIDTH,
    {
        let fields = UdpHeader::layout();
        proof {
            lemma_udp_layout();
        }
        layout_column_names(&fields)
    }

    /// Leaves the encoding as it is.
    fn anonymize(&mut self)
        ensures
            final(self)@ == old(self)@,
    {
    }
}

/// The UDP fields lie one behind the other and cover the whole encoding.
pub proof fn lemma_udp_layout()
    ensures
        contiguous(udp_fields()),
        layout_width(udp_fields()) == UDP_WIDTH,
{
    lemma_contiguous_width(udp_fields());
}

/// Each field of an encoded UDP header holds the binary digits of the
/// field's value in the header, most significant first, at the positions that
/// the layout gives it.
pub proof fn lemma_udp_field_value(header: Seq<u8>, k: int)
    requires
        header.len() >= UDP_HEADER_LEN,
        0 <= k < udp_fields().len(),
    ensures
        bits_value(
            udp_encoding(header).subrange(
                udp_fields()[k].start as int,
                udp_fields()[k].start + udp_fields()[k].width,
            ),
        ) == field_value(
            header.take(UDP_HEADER_LEN as int),
            udp_fields()[k].start as int,
            udp_fields()[k].width as int,
        ),
{
    lemma_fixed_field_value(
        header.take(UDP_HEADER_LEN as int),
        Seq::empty(),
        udp_fields()[k].start as int,
        udp_fields()[k].width as int,
    );
    assert(unpacked(header.take(UDP_HEADER_LEN as int)) + Seq::<i8>::empty() =~= udp_encoding(
        header,
    ));
}

} // verus!
