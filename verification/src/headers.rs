//! The encoding of one packet under a protocol stack.

use crate::bits::{absent, ternary};
use crate::frame::{demultiplex, ipv4_layer, tcp_layer, udp_layer};
use crate::protocols::dyn_protocols::Protocol;
use crate::protocols::ipv4::{
    ipv4_anonymized, ipv4_encoding, ipv4_fields, lemma_ipv4_layout, Ipv4Header,
    IPV4_ADDRESSES_END, IPV4_SOURCE_START, IPV4_WIDTH,
};
use crate::protocols::tcp::{
    lemma_tcp_layout, tcp_anonymized, tcp_encoding, tcp_fields, TcpHeader, TCP_PORTS_END,
    TCP_SOURCE_START, TCP_WIDTH,
};
use crate::protocols::udp::{lemma_udp_layout, udp_encoding, udp_fields, UdpHeader, UDP_WIDTH};
use crate::schema::{layout_columns, lemma_layout_columns_len};
use vstd::prelude::*;

verus! {

/// The protocols that can be encoded.
#[derive(Clone, Copy, Debug, PartialEq, Eq, Structural)]
pub enum ProtocolType {
    Ipv4,
    Tcp,
    Udp,
}

/// The number of positions of every encoding of `protocol`.
pub open spec fn protocol_width(protocol: ProtocolType) -> nat {
    match protocol {
        ProtocolType::Ipv4 => IPV4_WIDTH as nat,
        ProtocolType::Tcp => TCP_WIDTH as nat,
        ProtocolType::Udp => UDP_WIDTH as nat,
    }
}

impl ProtocolType {
    /// The number of positions of every encoding of the protocol.
    pub fn width(self) -> (width: usize)
        ensures
            width == protocol_width(self),
    {
        match self {
            ProtocolType::Ipv4 => IPV4_WIDTH,
            ProtocolType::Tcp => TCP_WIDTH,
            ProtocolType::Udp => UDP_WIDTH,
        }
    }
}

/// The names of the positions of an encoding of `protocol`.
pub open spec fn protocol_columns(protocol: ProtocolType) -> Seq<Seq<char>> {
    match protocol {
        ProtocolType::Ipv4 => layout_columns(ipv4_fields()),
        ProtocolType::Tcp => layout_columns(tcp_fields()),
        ProtocolType::Udp => layout_columns(udp_fields()),
    }
}

/// The encoding of `protocol` for `frame`: that of the header which the frame
/// carries, or absent markers throughout where it carries none.
pub open spec fn protocol_encoding(protocol: ProtocolType, frame: Seq<u8>) -> Seq<i8> {
    match protocol {
        ProtocolType::Ipv4 => match ipv4_layer(frame) {
            Some(header) => ipv4_encoding(header),
            None => absent(IPV4_WIDTH as nat),
        },
        ProtocolType::Tcp => match tcp_layer(frame) {
            Some(header) => tcp_encoding(header),
            None => absent(TCP_WIDTH as nat),
        },
        ProtocolType::Udp => match udp_layer(frame) {
            Some(header) => udp_encoding(header),
            None => absent(UDP_WIDTH as nat),
        },
    }
}

/// An encoding of `protocol` with its sensitive positions set to `0`: the
/// addresses of IPv4, the ports of TCP, nothing of UDP.
pub open spec fn protocol_anonymized(protocol: ProtocolType, bits: Seq<i8>) -> Seq<i8> {
    match protocol {
        ProtocolType::Ipv4 => ipv4_anonymized(bits),
        ProtocolType::Tcp => tcp_anonymized(bits),
        ProtocolType::Udp => bits,
    }
}

/// The encoding of `frame` under `stack`: one encoding for each protocol of
/// the stack, in stack order.
pub open spec fn frame_encoding(frame: Seq<u8>, stack: Seq<ProtocolType>) -> Seq<Seq<i8>> {
    Seq::new(stack.len(), |i: int| protocol_encoding(stack[i], frame))
}

/// The encodings of one packet after each has been anonymized for its
/// protocol.
pub open spec fn headers_anonymized(stack: Seq<ProtocolType>, headers: Seq<Seq<i8>>) -> Seq<
    Seq<i8>,
> {
    Seq::new(headers.len(), |i: int| protocol_anonymized(stack[i], headers[i]))
}

/// The number of positions that one packet takes under `stack`.
pub open spec fn stack_width(stack: Seq<ProtocolType>) -> nat
    decreases stack.len(),
{
    if stack.len() == 0 {
        0
    } else {
        stack_width(stack.drop_last()) + protocol_width(stack.last())
    }
}

/// The names of the positions of one packet under `stack`.
pub open spec fn stack_columns(stack: Seq<ProtocolType>) -> Seq<Seq<char>>
    decreases stack.len(),
{
    if stack.len() == 0 {
        Seq::empty()
    } else {
        stack_columns(stack.drop_last()) + protocol_columns(stack.last())
    }
}

/// Says whether position `i` of an encoding of `protocol` is sensitive: an
/// address bit of IPv4 or a port bit of TCP.
pub open spec fn sensitive(protocol: ProtocolType, i: int) -> bool {
    match protocol {
        ProtocolType::Ipv4 => IPV4_SOURCE_START <= i < IPV4_ADDRESSES_END,
        ProtocolType::Tcp => TCP_SOURCE_START <= i < TCP_PORTS_END,
        ProtocolType::Udp => false,
    }
}

/// `headers` holds one ternary encoding of the right width for each protocol
/// of `stack`.
pub open spec fn shaped(stack: Seq<ProtocolType>, headers: Seq<Seq<i8>>) -> bool {
    &&& headers.len() == stack.len()
    &&& forall|j: int|
        0 <= j < stack.len() ==> (#[trigger] headers[j]).len() == protocol_width(stack[j])
            && ternary(headers[j])
}

/// Whatever the frame holds, the encoding of a protocol is ternary and has
/// the width of the protocol.
pub proof fn lemma_protocol_encoding_shape(protocol: ProtocolType, frame: Seq<u8>)
    ensures
        protocol_encoding(protocol, frame).len() == protocol_width(protocol),
        ternary(protocol_encoding(protocol, frame)),
{
    match protocol {
        ProtocolType::Ipv4 => match ipv4_layer(frame) {
            Some(header) => Ipv4Header::lemma_encoding_shape(header),
            None => {},
        },
        ProtocolType::Tcp => match tcp_layer(frame) {
            Some(header) => TcpHeader::lemma_encoding_shape(header),
            None => {},
        },
        ProtocolType::Udp => match udp_layer(frame) {
            Some(header) => UdpHeader::lemma_encoding_shape(header),
            None => {},
        },
    }
}

/// Whatever the frame holds, its encoding has the shape that the stack gives.
pub proof fn lemma_frame_encoding_shaped(frame: Seq<u8>, stack: Seq<ProtocolType>)
    ensures
        shaped(stack, frame_encoding(frame, stack)),
{
    assert forall|j: int| 0 <= j < stack.len() implies (#[trigger] frame_encoding(
        frame,
        stack,
    )[j]).len() == protocol_width(stack[j]) && ternary(frame_encoding(frame, stack)[j]) by {
        lemma_protocol_encoding_shape(stack[j], frame);
    }
}

/// Encodings of the shape of a stack, laid one behind the other, are ternary
/// and fill the width of the stack.
pub proof fn lemma_shaped_width(stack: Seq<ProtocolType>, headers: Seq<Seq<i8>>)
    requires
        shaped(stack, headers),
    ensures
        headers.flatten().len() == stack_width(stack),
        ternary(headers.flatten()),
    decreases stack.len(),
{
    if stack.len() > 0 {
        let front = headers.drop_last();
        assert forall|j: int| 0 <= j < stack.drop_last().len() implies (#[trigger] front[j]).len()
            == protocol_width(stack.drop_last()[j]) && ternary(front[j]) by {
            assert(front[j] == headers[j]);
        }
        lemma_shaped_width(stack.drop_last(), front);
        assert(headers =~= front.push(headers.last()));
        front.lemma_flatten_push(headers.last());
        assert(headers.last() == headers[stack.len() - 1]);
    } else {
        assert(headers =~= Seq::<Seq<i8>>::empty());
    }
}

/// Whatever the frame holds, its flat encoding fills the width of the stack:
/// the shape of the output depends on the configuration alone.
pub proof fn lemma_frame_encoding_width(frame: Seq<u8>, stack: Seq<ProtocolType>)
    ensures
        frame_encoding(frame, stack).flatten().len() == stack_width(stack),
        ternary(frame_encoding(frame, stack).flatten()),
{
    lemma_frame_encoding_shaped(frame, stack);
    lemma_shaped_width(stack, frame_encoding(frame, stack));
}

/// Encoding is a function of the frame and the stack: two encodings of one
/// frame under one stack agree position by position.
pub proof fn lemma_encoding_repeatable(
    frame: Seq<u8>,
    stack: Seq<ProtocolType>,
    first: Headers,
    second: Headers,
)
    requires
        first@ == frame_encoding(frame, stack),
        second@ == frame_encoding(frame, stack),
    ensures
        first@ == second@,
        first@.flatten() == second@.flatten(),
{
}

/// A protocol has one column name for each position of its encoding.
pub proof fn lemma_protocol_columns_len(protocol: ProtocolType)
    ensures
        protocol_columns(protocol).len() == protocol_width(protocol),
{
    match protocol {
        ProtocolType::Ipv4 => {
            lemma_ipv4_layout();
            lemma_layout_columns_len(ipv4_fields());
        },
        ProtocolType::Tcp => {
            lemma_tcp_layout();
            lemma_layout_columns_len(tcp_fields());
        },
        ProtocolType::Udp => {
            lemma_udp_layout();
            lemma_layout_columns_len(udp_fields());
        },
    }
}

/// A stack has one column name for each position of a packet: the number of
/// names is the sum of the widths of its protocols.
pub proof fn lemma_stack_columns_len(stack: Seq<ProtocolType>)
    ensures
        stack_columns(stack).len() == stack_width(stack),
    decreases stack.len(),
{
    if stack.len() > 0 {
        lemma_stack_columns_len(stack.drop_last());
        lemma_protocol_columns_len(stack.last());
    }
}

/// Anonymizing keeps the width, sets the sensitive positions to `0` and
/// leaves every other position as it was.
pub proof fn lemma_anonymized_positions(protocol: ProtocolType, bits: Seq<i8>)
    ensures
        protocol_anonymized(protocol, bits).len() == bits.len(),
        forall|i: int|
            0 <= i < bits.len() ==> #[trigger] protocol_anonymized(protocol, bits)[i] == (
            if sensitive(protocol, i) {
                0i8
            } else {
                bits[i]
            }),
{
}

/// Anonymizing twice gives what anonymizing once gives.
pub proof fn lemma_anonymize_idempotent(protocol: ProtocolType, bits: Seq<i8>)
    ensures
        protocol_anonymized(protocol, protocol_anonymized(protocol, bits)) == protocol_anonymized(
            protocol,
            bits,
        ),
{
    let once = protocol_anonymized(protocol, bits);
    assert(protocol_anonymized(protocol, once) =~= once);
}

/// Anonymizing the encodings of a packet keeps their shape.
pub proof fn lemma_headers_anonymized_shaped(stack: Seq<ProtocolType>, headers: Seq<Seq<i8>>)
    requires
        shaped(stack, headers),
    ensures
        shaped(stack, headers_anonymized(stack, headers)),
{
    assert forall|j: int| 0 <= j < stack.len() implies (#[trigger] headers_anonymized(
        stack,
        headers,
    )[j]).len() == protocol_width(stack[j]) && ternary(headers_anonymized(stack, headers)[j]) by {
        lemma_anonymized_positions(stack[j], headers[j]);
        let after = headers_anonymized(stack, headers)[j];
        assert forall|i: int| 0 <= i < after.len() implies -1 <= #[trigger] after[i] <= 1 by {
            assert(-1 <= headers[j][i] <= 1);
        }
    }
}

/// Anonymizing the encodings of a packet twice gives what anonymizing them
/// once gives.
pub proof fn lemma_headers_anonymize_idempotent(stack: Seq<ProtocolType>, headers: Seq<Seq<i8>>)
    ensures
        headers_anonymized(stack, headers_anonymized(stack, headers)) == headers_anonymized(
            stack,
            headers,
        ),
{
    let once = headers_anonymized(stack, headers);
    assert forall|j: int| 0 <= j < once.len() implies #[trigger] headers_anonymized(stack, once)[j]
        == once[j] by {
        lemma_anonymize_idempotent(stack[j], headers[j]);
    }
    assert(headers_anonymized(stack, once) =~= once);
}

/// The encoding of one header, tagged with its protocol.
#[derive(Debug)]
pub enum Header {
    Ipv4(Ipv4Header),
    Tcp(TcpHeader),
    Udp(UdpHeader),
}

impl View for Header {
    type V = Seq<i8>;

    open spec fn view(&self) -> Seq<i8> {
        match self {
            Header::Ipv4(header) => header@,
            Header::Tcp(header) => header@,
            Header::Udp(header) => header@,
        }
    }
}

impl Header {
    /// The protocol of the header.
    pub open spec fn kind(&self) -> ProtocolType {
        match self {
            Header::Ipv4(_) => ProtocolType::Ipv4,
            Header::Tcp(_) => ProtocolType::Tcp,
            Header::Udp(_) => ProtocolType::Udp,
        }
    }

    /// The encoding held.
    pub fn get_data(&self) -> (data: &Vec<i8>)
        ensures
            data@ == self@,
            data@.len() == protocol_width(self.kind()),
            ternary(data@),
    {
        match self {
            Header::Ipv4(header) => header.get_data(),
            Header::Tcp(header) => header.get_data(),
            Header::Udp(header) => header.get_data(),
        }
    }

    /// Sets the sensitive positions of the encoding to `0`.
    pub fn anonymize(&mut self)
        ensures
            final(self).kind() == old(self).kind(),
            final(self)@ == protocol_anonymized(old(self).kind(), old(self)@),
    {
        match self {
            Header::Ipv4(header) => header.anonymize(),
            Header::Tcp(header) => header.anonymize(),
            Header::Udp(header) => header.anonymize(),
        }
    }
}

/// The encodings of the headers of one packet, in stack order.
#[derive(Debug)]
pub struct Headers {
    data: Vec<Header>,
}

impl View for Headers {
    type V = Seq<Seq<i8>>;

    closed spec fn view(&self) -> Seq<Seq<i8>> {
        self.data@.map_values(|header: Header| header@)
    }
}

impl Headers {
    /// The protocols of the encodings held, in order.
    pub closed spec fn kinds(&self) -> Seq<ProtocolType> {
        self.data@.map_values(|header: Header| header.kind())
    }

    /// Encodes `packet` under `protocols`.
    ///
    /// The frame is taken apart once. Each protocol of the stack then gets the
    /// encoding of its header, or absent markers where the frame has none; a
    /// protocol that the stack does not name leaves no trace.
    pub fn new(packet: &[u8], protocols: &[ProtocolType]) -> (headers: Headers)
        ensures
            headers@ == frame_encoding(packet@, protocols@),
            headers.kinds() == protocols@,
    {
        let layers = demultiplex(packet);
        let mut data: Vec<Header> = Vec::with_capacity(protocols.len());
        let mut i: usize = 0;
        while i < protocols.len()
            invariant
                i <= protocols@.len(),
                layers.ipv4.deep_view() == ipv4_layer(packet@),
                layers.tcp.deep_view() == tcp_layer(packet@),
                layers.udp.deep_view() == udp_layer(packet@),
                data@.len() == i,
                forall|k: int| 0 <= k < i ==> (#[trigger] data@[k]).kind() == protocols@[k],
                forall|k: int|
                    0 <= k < i ==> (#[trigger] data@[k])@ == protocol_encoding(
                        protocols@[k],
                        packet@,
                    ),
            decreases protocols@.len() - i,
        {
            let header = match protocols[i] {
                ProtocolType::Ipv4 => Header::Ipv4(
                    match &layers.ipv4 {
                        Some(raw) => Ipv4Header::new(raw.as_slice()),
                        None => Ipv4Header::default(),
                    },
                ),
                ProtocolType::Tcp => Header::Tcp(
                    match &layers.tcp {
                        Some(raw) => TcpHeader::new(raw.as_slice()),
                        None => TcpHeader::default(),
                    },
                ),
                ProtocolType::Udp => Header::Udp(
                    match &layers.udp {
                        Some(raw) => UdpHeader::new(raw.as_slice()),
                        None => UdpHeader::default(),
                    },
                ),
            };
            data.push(header);
            i += 1;
        }
        let headers = Headers { data };
        headers
    }

    /// The encodings one behind the other.
    pub fn flatten(&self) -> (flat: Vec<i8>)
        ensures
            flat@ == self@.flatten(),
            flat@.len() == stack_width(self.kinds()),
            ternary(flat@),
    {
        let mut flat: Vec<i8> = Vec::new();
        let mut i: usize = 0;
        while i < self.data.len()
            invariant
                i <= self.data@.len(),
                flat@ == self@.take(i as int).flatten(),
                flat@.len() == stack_width(self.kinds().take(i as int)),
                ternary(flat@),
            decreases self.data@.len() - i,
        {
            let bits = self.data[i].get_data();
            let ghost before = flat@;
            let mut j: usize = 0;
            while j < bits.len()
                invariant
                    j <= bits@.len(),
                    flat@ == before + bits@.take(j as int),
                decreases bits@.len() - j,
            {
                flat.push(bits[j]);
                j += 1;
            }
            proof {
                assert(self@.take(i + 1) =~= self@.take(i as int).push(bits@));
                self@.take(i as int).lemma_flatten_push(bits@);
                assert(self.kinds().take(i + 1).drop_last() =~= self.kinds().take(i as int));
            }
            i += 1;
        }
        proof {
            assert(self@.take(i as int) =~= self@);
            assert(self.kinds().take(i as int) =~= self.kinds());
        }
        flat
    }

    /// Sets the sensitive positions of every encoding to `0`.
    pub fn anonymize(&mut self)
        ensures
            final(self).kinds() == old(self).kinds(),
            final(self)@ == headers_anonymized(old(self).kinds(), old(self)@),
    {
        let mut i: usize = 0;
        while i < self.data.len()
            invariant
                i <= self.data@.len(),
                self.data@.len() == old(self).data@.len(),
                forall|k: int|
                    0 <= k < self.data@.len() ==> (#[trigger] self.data@[k]).kind() == old(
                        self,
                    ).data@[k].kind(),
                forall|k: int|
                    0 <= k < i ==> (#[trigger] self.data@[k])@ == protocol_anonymized(
                        old(self).data@[k].kind(),
                        old(self).data@[k]@,
                    ),
                forall|k: int|
                    i <= k < self.data@.len() ==> (#[trigger] self.data@[k])@ == old(
                        self,
                    ).data@[k]@,
            decreases self.data@.len() - i,
        {
            self.data[i].anonymize();
            i += 1;
        }
    }
}

} // verus!
