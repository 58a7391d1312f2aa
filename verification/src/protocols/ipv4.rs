//! The IPv4 header encoding.

use crate::bits::{
    absent, lemma_unpacked_ternary, lemma_zeroed_ternary, push_absent, push_bits, ternary,
    unpacked, zero_range, zeroed,
};
use crate::options::{get_options_bits, options_bits, OPTIONS_WIDTH};
use crate::protocols::dyn_protocols::Protocol;
use crate::schema::{
    contiguous, layout_column_names, layout_columns, layout_width, lemma_contiguous_width,
    FieldLayout,
};
use crate::values::{bits_value, field_value, lemma_fixed_field_value};
use crate::wire::{ipv4_options, ipv4_parts, IPV4_HEADER_LEN};
use vstd::prelude::*;

verus! {

/// The number of positions of an IPv4 encoding: 160 for the fixed fields and
/// `OPTIONS_WIDTH` for the options.
pub const IPV4_WIDTH: usize = 480;

/// First position of the source address.
pub const IPV4_SOURCE_START: usize = 96;

/// First position of the destination address.
pub const IPV4_DESTINATION_START: usize = 128;

/// First position behind the destination address.
pub const IPV4_ADDRESSES_END: usize = 160;

/// The encoding of an IPv4 header.
///
/// A buffer shorter than the fixed part of the header encodes as absent
/// markers throughout. Otherwise the fixed fields follow one another on the
/// wire without gaps, most significant bit first, so their encoding is the 160
/// bits of the first 20 bytes in wire order; the options follow, normalised to
/// their fixed width.
pub open spec fn ipv4_encoding(header: Seq<u8>) -> Seq<i8> {
    if header.len() >= IPV4_HEADER_LEN {
        unpacked(header.take(IPV4_HEADER_LEN as int)) + options_bits(ipv4_options(header))
    } else {
        absent(IPV4_WIDTH as nat)
    }
}

/// An IPv4 encoding with both addresses set to `0`.
pub open spec fn ipv4_anonymized(bits: Seq<i8>) -> Seq<i8> {
    zeroed(bits, IPV4_SOURCE_START as int, IPV4_ADDRESSES_END as int)
}

/// The fields of an IPv4 header, in wire order.
pub open spec fn ipv4_fields() -> Seq<FieldLayout> {
    seq![
        FieldLayout { name: "ipv4_ver", start: 0, width: 4 },
        FieldLayout { name: "ipv4_hl", start: 4, width: 4 },
        FieldLayout { name: "ipv4_tos", start: 8, width: 8 },
        FieldLayout { name: "ipv4_tl", start: 16, width: 16 },
        FieldLayout { name: "ipv4_id", start: 32, width: 16 },
        FieldLayout { name: "ipv4_rbit", start: 48, width: 1 },
        FieldLayout { name: "ipv4_dfbit", start: 49, width: 1 },
        FieldLayout { name: "ipv4_mfbit", start: 50, width: 1 },
        FieldLayout { name: "ipv4_foff", start: 51, width: 13 },
        FieldLayout { name: "ipv4_ttl", start: 64, width: 8 },
        FieldLayout { name: "ipv4_proto", start: 72, width: 8 },
        FieldLayout { name: "ipv4_cksum", start: 80, width: 16 },
        FieldLayout { name: "ipv4_src", start: 96, width: 32 },
        FieldLayout { name: "ipv4_dst", start: 128, width: 32 },
        FieldLayout { name: "ipv4_opt", start: 160, width: 320 },
    ]
}

/// The encoding of one IPv4 header.
#[derive(PartialEq, Debug)]
pub struct Ipv4Header {
    data: Vec<i8>,
}

impl View for Ipv4Header {
    type V = Seq<i8>;

    closed spec fn view(&self) -> Seq<i8> {
        self.data@
    }
}

impl Clone for Ipv4Header {
    fn clone(&self) -> (copy: Self)
        ensures
            copy@ == self@,
    {
        proof {
            use_type_invariant(self);
        }
        let data = self.data.clone();
        Ipv4Header { data }
    }
}

impl Default for Ipv4Header {
    /// The encoding of a header that is not there: absent markers throughout.
    fn default() -> (header: Self)
        ensures
            header@ == absent(IPV4_WIDTH as nat),
    {
        let mut data: Vec<i8> = Vec::new();
        push_absent(&mut data, IPV4_WIDTH);
        Ipv4Header { data }
    }
}

impl Ipv4Header {
    #[verifier::type_invariant]
    spec fn well_formed(&self) -> bool {
        self.data@.len() == IPV4_WIDTH && ternary(self.data@)
    }

    /// The fields of an IPv4 header, in wire order.
    pub fn layout() -> (fields: Vec<FieldLayout>)
        ensures
            fields@ == ipv4_fields(),
    {
        let mut fields: Vec<FieldLayout> = Vec::new();
        fields.push(FieldLayout { name: "ipv4_ver", start: 0, width: 4 });
        fields.push(FieldLayout { name: "ipv4_hl", start: 4, width: 4 });
        fields.push(FieldLayout { name: "ipv4_tos", start: 8, width: 8 });
        fields.push(FieldLayout { name: "ipv4_tl", start: 16, width: 16 });
        fields.push(FieldLayout { name: "ipv4_id", start: 32, width: 16 });
        fields.push(FieldLayout { name: "ipv4_rbit", start: 48, width: 1 });
        fields.push(FieldLayout { name: "ipv4_dfbit", start: 49, width: 1 });
        fields.push(FieldLayout { name: "ipv4_mfbit", start: 50, width: 1 });
        fields.push(FieldLayout { name: "ipv4_foff", start: 51, width: 13 });
        fields.push(FieldLayout { name: "ipv4_ttl", start: 64, width: 8 });
        fields.push(FieldLayout { name: "ipv4_proto", start: 72, width: 8 });
        fields.push(FieldLayout { name: "ipv4_cksum", start: 80, width: 16 });
        fields.push(FieldLayout { name: "ipv4_src", start: 96, width: 32 });
        fields.push(FieldLayout { name: "ipv4_dst", start: 128, width: 32 });
        fields.push(FieldLayout { name: "ipv4_opt", start: 160, width: 320 });
        fields
    }

    /// Sets the positions `start ..= end` of the encoding to `0`.
    pub fn remove(&mut self, start: usize, end: usize)
        requires
            start <= end + 1,
            end < IPV4_WIDTH,
        ensures
            final(self)@ == zeroed(old(self)@, start as int, end + 1),
    {
        proof {
            use_type_invariant(&*self);
            lemma_zeroed_ternary(self.data@, start as int, end + 1);
        }
        zero_range(&mut self.data, start, end);
    }
}

impl Protocol for Ipv4Header {
    open spec fn width() -> nat {
        IPV4_WIDTH as nat
    }

    open spec fn encoding(header: Seq<u8>) -> Seq<i8> {
        ipv4_encoding(header)
    }

    open spec fn columns() -> Seq<Seq<char>> {
        layout_columns(ipv4_fields())
    }

    open spec fn anonymized(bits: Seq<i8>) -> Seq<i8> {
        ipv4_anonymized(bits)
    }

    proof fn lemma_encoding_shape(header: Seq<u8>) {
        if header.len() >= IPV4_HEADER_LEN {
            lemma_unpacked_ternary(header.take(IPV4_HEADER_LEN as int));
        }
    }

    /// Encodes the IPv4 header at the start of `packet`.
    fn new(packet: &[u8]) -> (header: Ipv4Header)
        ensures
            header@ == ipv4_encoding(packet@),
            packet@.len() < IPV4_HEADER_LEN ==> header@ == absent(IPV4_WIDTH as nat),
    {
        match ipv4_parts(packet) {
            Some(parts) => {
                let mut data: Vec<i8> = Vec::with_capacity(IPV4_WIDTH);
                push_bits(&mut data, packet, IPV4_HEADER_LEN);
                let mut options = get_options_bits(parts.options.as_slice());
                data.append(&mut options);
                proof {
                    lemma_unpacked_ternary(packet@.take(IPV4_HEADER_LEN as int));
                }
                Ipv4Header { data }
            },
            None => Ipv4Header::default(),
        }
    }

    /// The encoding held: ternary, and `IPV4_WIDTH` positions wide.
    fn get_data(&self) -> (data: &Vec<i8>)
        ensures
            data@ == self@,
            data@.len() == IPV4_WIDTH,
            ternary(data@),
    {
        proof {
            use_type_invariant(self);
        }
        &self.data
    }

    /// The names of the positions: for each field of the layout, in order,
    /// the field's name with the indices of its positions.
    fn get_headers() -> (names: Vec<String>)
        ensures
            names.deep_view() == layout_columns(ipv4_fields()),
            names@.len() == IPV4_WIDTH,
    {
        let fields = Ipv4Header::layout();
        proof {
            lemma_ipv4_layout();
        }
        layout_column_names(&fields)
    }

    /// Sets both addresses to `0`.
    fn anonymize(&mut self)
        ensures
            final(self)@ == ipv4_anonymized(old(self)@),
    {
        self.remove(IPV4_SOURCE_START, IPV4_DESTINATION_START - 1);
        self.remove(IPV4_DESTINATION_START, IPV4_ADDRESSES_END - 1);
    }
}

/// The IPv4 fields lie one behind the other and cover the whole encoding.
pub proof fn lemma_ipv4_layout()
    ensures
        contiguous(ipv4_fields()),
        layout_width(ipv4_fields()) == IPV4_WIDTH,
{
    lemma_contiguous_width(ipv4_fields());
}

/// Each fixed field of an encoded IPv4 header holds the binary digits of the
/// field's value in the header, most significant first, at the positions that
/// the layout gives it.
pub proof fn lemma_ipv4_field_value(header: Seq<u8>, k: int)
    requires
        header.len() >= IPV4_HEADER_LEN,
        0 <= k < ipv4_fields().len() - 1,
    ensures
        bits_value(
            ipv4_encoding(header).subrange(
                ipv4_fields()[k].start as int,
                ipv4_fields()[k].start + ipv4_fields()[k].width,
            ),
        ) == field_value(
            header.take(IPV4_HEADER_LEN as int),
            ipv4_fields()[k].start as int,
            ipv4_fields()[k].width as int,
        ),
{
    lemma_fixed_field_value(
        header.take(IPV4_HEADER_LEN as int),
        options_bits(ipv4_options(header)),
        ipv4_fields()[k].start as int,
        ipv4_fields()[k].width as int,
    );
}

} // verus!
