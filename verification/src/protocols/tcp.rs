//! The TCP header encoding.

use crate::bits::{
    absent, lemma_unpacked_ternary, lemma_zeroed_ternary, push_absent, push_bits, ternary,
    unpacked, zero_range, zeroed,
};
use crate::options::{get_options_bits, options_bits};
use crate::protocols::dyn_protocols::Protocol;
use crate::schema::{
    contiguous, layout_column_names, layout_columns, layout_width, lemma_contiguous_width,
    FieldLayout,
};
use crate::values::{bits_value, field_value, lemma_fixed_field_value};
use crate::wire::{tcp_options, tcp_raw_options, TCP_HEADER_LEN};
use vstd::prelude::*;

verus! {

/// The number of positions of a TCP encoding: 160 for the fixed fields and
/// 320 for the options.
pub const TCP_WIDTH: usize = 480;

/// First position of the source port.
pub const TCP_SOURCE_START: usize = 0;

/// First position of the destination port.
pub const TCP_DESTINATION_START: usize = 16;

/// First position behind the destination port.
pub const TCP_PORTS_END: usize = 32;

/// The encoding of a TCP header.
///
/// A buffer shorter than the fixed part of the header encodes as absent
/// markers throughout. Otherwise the fixed fields follow one another on the
/// wire without gaps, most significant bit first, so their encoding is the 160
/// bits of the first 20 bytes in wire order; the options follow, normalised to
/// their fixed width.
pub open spec fn tcp_encoding(header: Seq<u8>) -> Seq<i8> {
    if header.len() >= TCP_HEADER_LEN {
        unpacked(header.take(TCP_HEADER_LEN as int)) + options_bits(tcp_options(header))
    } else {
        absent(TCP_WIDTH as nat)
    }
}

/// A TCP encoding with both ports set to `0`.
pub open spec fn tcp_anonymized(bits: Seq<i8>) -> Seq<i8> {
    zeroed(bits, TCP_SOURCE_START as int, TCP_PORTS_END as int)
}

/// The fields of a TCP header, in wire order.
pub open spec fn tcp_fields() -> Seq<FieldLayout> {
    seq![
        FieldLayout { name: "tcp_sprt", start: 0, width: 16 },
        FieldLayout { name: "tcp_dprt", start: 16, width: 16 },
        FieldLayout { name: "tcp_seq", start: 32, width: 32 },
        FieldLayout { name: "tcp_ackn", start: 64, width: 32 },
        FieldLayout { name: "tcp_doff", start: 96, width: 4 },
        FieldLayout { name: "tcp_res", start: 100, width: 3 },
        FieldLayout { name: "tcp_ns", start: 103, width: 1 },
        FieldLayout { name: "tcp_cwr", start: 104, width: 1 },
        FieldLayout { name: "tcp_ece", start: 105, width: 1 },
        FieldLayout { name: "tcp_urg", start: 106, width: 1 },
        FieldLayout { name: "tcp_ackf", start: 107, width: 1 },
        FieldLayout { name: "tcp_psh", start: 108, width: 1 },
        FieldLayout { name: "tcp_rst", start: 109, width: 1 },
        FieldLayout { name: "tcp_syn", start: 110, width: 1 },
        FieldLayout { name: "tcp_fin", start: 111, width: 1 },
        FieldLayout { name: "tcp_wsize", start: 112, width: 16 },
        FieldLayout { name: "tcp_cksum", start: 128, width: 16 },
        FieldLayout { name: "tcp_urp", start: 144, width: 16 },
        FieldLayout { name: "tcp_opt", start: 160, width: 320 },
    ]
}

/// The encoding of one TCP header.
#[derive(PartialEq, Debug)]
pub struct TcpHeader {
    data: Vec<i8>,
}

impl View for TcpHeader {
    type V = Seq<i8>;

    closed spec fn view(&self) -> Seq<i8> {
        self.data@
    }
}

impl Clone for TcpHeader {
    fn clone(&self) -> (copy: Self)
        ensures
            copy@ == self@,
    {
        proof {
            use_type_invariant(self);
        }
        let data = self.data.clone();
        TcpHeader { data }
    }
}

impl Default for TcpHeader {
    /// The encoding of a header that is not there: absent markers throughout.
    fn default() -> (header: Self)
        ensures
            header@ == absent(TCP_WIDTH as nat),
    {
        let mut data: Vec<i8> = Vec::new();
        push_absent(&mut data, TCP_WIDTH);
        TcpHeader { data }
    }
}

impl TcpHeader {
    #[verifier::type_invariant]
    spec fn well_formed(&self) -> bool {
        self.data@.len() == TCP_WIDTH && ternary(self.data@)
    }

    /// The fields of a TCP header, in wire order.
    pub fn layout() -> (fields: Vec<FieldLayout>)
        ensures
            fields@ == tcp_fields(),
    {
        let mut fields: Vec<FieldLayout> = Vec::new();
        fields.push(FieldLayout { name: "tcp_sprt", start: 0, width: 16 });
        fields.push(FieldLayout { name: "tcp_dprt", start: 16, width: 16 });
        fields.push(FieldLayout { name: "tcp_seq", start: 32, width: 32 });
        fields.push(FieldLayout { name: "tcp_ackn", start: 64, width: 32 });
        fields.push(FieldLayout { name: "tcp_doff", start: 96, width: 4 });
        fields.push(FieldLayout { name: "tcp_res", start: 100, width: 3 });
        fields.push(FieldLayout { name: "tcp_ns", start: 103, width: 1 });
        fields.push(FieldLayout { name: "tcp_cwr", start: 104, width: 1 });
        fields.push(FieldLayout { name: "tcp_ece", start: 105, width: 1 });
        fields.push(FieldLayout { name: "tcp_urg", start: 106, width: 1 });
        fields.push(FieldLayout { name: "tcp_ackf", start: 107, width: 1 });
        fields.push(FieldLayout { name: "tcp_psh", start: 108, width: 1 });
        fields.push(FieldLayout { name: "tcp_rst", start: 109, width: 1 });
        fields.push(FieldLayout { name: "tcp_syn", start: 110, width: 1 });
        fields.push(FieldLayout { name: "tcp_fin", start: 111, width: 1 });
        fields.push(FieldLayout { name: "tcp_wsize", start: 112, width: 16 });
        fields.push(FieldLayout { name: "tcp_cksum", start: 128, width: 16 });
        fields.push(FieldLayout { name: "tcp_urp", start: 144, width: 16 });
        fields.push(FieldLayout { name: "tcp_opt", start: 160, width: 320 });
        fields
    }

    /// Sets the positions `start ..= end` of the encoding to `0`.
    pub fn remove(&mut self, start: usize, end: usize)
        requires
            start <= end + 1,
            end < TCP_WIDTH,
        ensures
            final(self)@ == zeroed(old(self)@, start as int, end + 1),
    {
        proof {
            use_type_invariant(&*self);
            lemma_zeroed_ternary(self.data@, start as int, end + 1);
        }
        zero_range(&mut self.data, start, end);
    }
}

impl Protocol for TcpHeader {
    open spec fn width() -> nat {
        TCP_WIDTH as nat
    }

    open spec fn encoding(header: Seq<u8>) -> Seq<i8> {
        tcp_encoding(header)
    }

    open spec fn columns() -> Seq<Seq<char>> {
        layout_columns(tcp_fields())
    }

    open spec fn anonymized(bits: Seq<i8>) -> Seq<i8> {
        tcp_anonymized(bits)
    }

    proof fn lemma_encoding_shape(header: Seq<u8>) {
        if header.len() >= TCP_HEADER_LEN {
            lemma_unpacked_ternary(header.take(TCP_HEADER_LEN as int));
        }
    }

    /// Encodes the TCP header at the start of `packet`.
    fn new(packet: &[u8]) -> (header: TcpHeader)
        ensures
            header@ == tcp_encoding(packet@),
            packet@.len() < TCP_HEADER_LEN ==> header@ == absent(TCP_WIDTH as nat),
    {
        match tcp_raw_options(packet) {
            Some(raw) => {
                let mut data: Vec<i8> = Vec::with_capacity(TCP_WIDTH);
                push_bits(&mut data, packet, TCP_HEADER_LEN);
                let mut options = get_options_bits(raw.as_slice());
                data.append(&mut options);
                proof {
                    lemma_unpacked_ternary(packet@.take(TCP_HEADER_LEN as int));
                }
                TcpHeader { data }
            },
            None => TcpHeader::default(),
        }
    }

    /// The encoding held: ternary, and `TCP_WIDTH` positions wide.
    fn get_data(&self) -> (data: &Vec<i8>)
        ensures
            data@ == self@,
            data@.len() == TCP_WIDTH,
            ternary(data@),
    {
        proof {
            use_type_invariant(self);
        }
        &self.data
    }

    /// The names of the positions: for each field of the layout, in order,
    /// the field's name with the indices of its positions.
    fn get_headers() -> (names: Vec<String>)
        ensures
            names.deep_view() == layout_columns(tcp_fields()),
            names@.len() == TCP_WIDTH,
    {
        let fields = TcpHeader::layout();
        proof {
            lemma_tcp_layout();
        }
        layout_column_names(&fields)
    }

    /// Sets both ports to `0`.
    fn anonymize(&mut self)
        ensures
            final(self)@ == tcp_anonymized(old(self)@),
    {
        self.remove(TCP_SOURCE_START, TCP_DESTINATION_START - 1);
        self.remove(TCP_DESTINATION_START, TCP_PORTS_END - 1);
    }
}

/// The TCP fields lie one behind the other and cover the whole encoding.
pub proof fn lemma_tcp_layout()
    ensures
        contiguous(tcp_fields()),
        layout_width(tcp_fields()) == TCP_WIDTH,
{
    lemma_contiguous_width(tcp_fields());
}

/// Each fixed field of an encoded TCP header holds the binary digits of the
/// field's value in the header, most significant first, at the positions that
/// the layout gives it.
pub proof fn lemma_tcp_field_value(header: Seq<u8>, k: int)
    requires
        header.len() >= TCP_HEADER_LEN,
        0 <= k < tcp_fields().len() - 1,
    ensures
        bits_value(
            tcp_encoding(header).subrange(
                tcp_fields()[k].start as int,
                tcp_fields()[k].start + tcp_fields()[k].width,
            ),
        ) == field_value(
            header.take(TCP_HEADER_LEN as int),
            tcp_fields()[k].start as int,
            tcp_fields()[k].width as int,
        ),
{
    lemma_fixed_field_value(
        header.take(TCP_HEADER_LEN as int),
        options_bits(tcp_options(header)),
        tcp_fields()[k].start as int,
        tcp_fields()[k].width as int,
    );
}

} // verus!
