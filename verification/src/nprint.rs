//! The encodings of the packets of one flow.

use crate::bits::ternary;
use crate::headers::{
    frame_encoding, headers_anonymized, lemma_frame_encoding_shaped,
    lemma_headers_anonymize_idempotent, lemma_headers_anonymized_shaped, lemma_shaped_width,
    lemma_stack_columns_len, shaped, stack_columns, stack_width, Headers, ProtocolType,
};
use crate::protocols::dyn_protocols::Protocol;
use crate::protocols::ipv4::Ipv4Header;
use crate::protocols::tcp::TcpHeader;
use crate::protocols::udp::UdpHeader;
use vstd::prelude::*;

verus! {

/// Why a protocol stack is refused.
#[derive(Clone, Copy, Debug, PartialEq, Eq, Structural)]
pub enum StackError {
    /// The stack names no protocol.
    Empty,
    /// The stack names a protocol twice.
    Duplicate,
}

/// A stack names at least one protocol, and none twice.
pub open spec fn valid_stack(stack: Seq<ProtocolType>) -> bool {
    stack.len() > 0 && stack.no_duplicates()
}

/// What is wrong with a stack, if anything.
pub open spec fn stack_fault(stack: Seq<ProtocolType>) -> Option<StackError> {
    if stack.len() == 0 {
        Some(StackError::Empty)
    } else if !stack.no_duplicates() {
        Some(StackError::Duplicate)
    } else {
        None
    }
}

/// The encodings of all packets one behind the other, each packet with its
/// headers in stack order.
pub open spec fn flattened(packets: Seq<Seq<Seq<i8>>>) -> Seq<i8> {
    packets.map_values(|headers: Seq<Seq<i8>>| headers.flatten()).flatten()
}

/// The packets of a flow after each has been anonymized.
pub open spec fn packets_anonymized(stack: Seq<ProtocolType>, packets: Seq<Seq<Seq<i8>>>) -> Seq<
    Seq<Seq<i8>>,
> {
    packets.map_values(|headers: Seq<Seq<i8>>| headers_anonymized(stack, headers))
}

/// Packets of the shape of a stack, laid one behind the other, are ternary and
/// fill the width of the stack once for each packet: as many positions as
/// there are packets times column names.
pub proof fn lemma_flattened_len(stack: Seq<ProtocolType>, packets: Seq<Seq<Seq<i8>>>)
    requires
        forall|i: int| 0 <= i < packets.len() ==> shaped(stack, #[trigger] packets[i]),
    ensures
        flattened(packets).len() == packets.len() * stack_width(stack),
        flattened(packets).len() == packets.len() * stack_columns(stack).len(),
        ternary(flattened(packets)),
    decreases packets.len(),
{
    lemma_stack_columns_len(stack);
    let flats = packets.map_values(|headers: Seq<Seq<i8>>| headers.flatten());
    if packets.len() > 0 {
        let front = packets.drop_last();
        assert forall|i: int| 0 <= i < front.len() implies shaped(stack, #[trigger] front[i]) by {
            assert(front[i] == packets[i]);
        }
        lemma_flattened_len(stack, front);
        assert(packets.last() == packets[packets.len() - 1]);
        lemma_shaped_width(stack, packets.last());
        let front_flats = front.map_values(|headers: Seq<Seq<i8>>| headers.flatten());
        assert(flats =~= front_flats.push(packets.last().flatten()));
        front_flats.lemma_flatten_push(packets.last().flatten());
        assert(packets.len() * stack_width(stack) == front.len() * stack_width(stack)
            + stack_width(stack)) by (nonlinear_arith)
            requires
                packets.len() == front.len() + 1,
        ;
    } else {
        assert(flats =~= Seq::<Seq<i8>>::empty());
    }
}

/// Anonymizing the packets of a flow twice gives what anonymizing them once
/// gives.
pub proof fn lemma_packets_anonymize_idempotent(
    stack: Seq<ProtocolType>,
    packets: Seq<Seq<Seq<i8>>>,
)
    ensures
        packets_anonymized(stack, packets_anonymized(stack, packets)) == packets_anonymized(
            stack,
            packets,
        ),
{
    let once = packets_anonymized(stack, packets);
    assert forall|i: int| 0 <= i < once.len() implies #[trigger] packets_anonymized(stack, once)[i]
        == once[i] by {
        lemma_headers_anonymize_idempotent(stack, packets[i]);
    }
    assert(packets_anonymized(stack, once) =~= once);
}

/// Says whether `protocols` names `protocol` at an index below `end`.
fn named_before(protocols: &Vec<ProtocolType>, end: usize, protocol: ProtocolType) -> (found: bool)
    requires
        end <= protocols@.len(),
    ensures
        found <==> exists|k: int| 0 <= k < end && protocols@[k] == protocol,
{
    let mut k: usize = 0;
    while k < end
        invariant
            k <= end <= protocols@.len(),
            forall|j: int| 0 <= j < k ==> protocols@[j] != protocol,
        decreases end - k,
    {
        if protocols[k] == protocol {
            return true;
        }
        k += 1;
    }
    false
}

/// Checks that a stack names at least one protocol, and none twice.
pub fn check_stack(protocols: &Vec<ProtocolType>) -> (checked: Result<(), StackError>)
    ensures
        checked == (match stack_fault(protocols@) {
            Some(error) => Err::<(), StackError>(error),
            None => Ok(()),
        }),
{
    if protocols.len() == 0 {
        return Err(StackError::Empty);
    }
    let mut i: usize = 0;
    while i < protocols.len()
        invariant
            i <= protocols@.len(),
            protocols@.take(i as int).no_duplicates(),
        decreases protocols@.len() - i,
    {
        if named_before(protocols, i, protocols[i]) {
            return Err(StackError::Duplicate);
        }
        i += 1;
    }
    assert(protocols@.take(i as int) =~= protocols@);
    Ok(())
}

/// The encodings of the packets of one flow, all under the stack that the
/// flow was created with.
#[derive(Debug)]
pub struct Nprint {
    data: Vec<Headers>,
    protocols: Vec<ProtocolType>,
    nb_pkt: usize,
}

impl Nprint {
    /// The encodings of the packets, in the order in which they were added.
    pub closed spec fn packets(&self) -> Seq<Seq<Seq<i8>>> {
        self.data@.map_values(|headers: Headers| headers@)
    }

    /// The protocol stack of the flow.
    pub closed spec fn stack(&self) -> Seq<ProtocolType> {
        self.protocols@
    }

    /// The flow holds at least its first packet, counts its packets, and
    /// every packet is encoded under the flow's valid stack.
    pub closed spec fn wf(&self) -> bool {
        &&& valid_stack(self.protocols@)
        &&& self.data@.len() >= 1
        &&& self.nb_pkt == self.data@.len()
        &&& forall|i: int|
            0 <= i < self.data@.len() ==> (#[trigger] self.data@[i]).kinds() == self.protocols@
                && shaped(self.protocols@, self.data@[i]@)
    }

    /// The flat output of a flow has as many positions as the flow has
    /// packets times the number of column names of its stack.
    pub proof fn lemma_output_len(&self)
        requires
            self.wf(),
        ensures
            flattened(self.packets()).len() == self.packets().len() * stack_columns(
                self.stack(),
            ).len(),
            stack_columns(self.stack()).len() == stack_width(self.stack()),
            ternary(flattened(self.packets())),
    {
        lemma_stack_columns_len(self.stack());
        assert forall|i: int| 0 <= i < self.packets().len() implies shaped(
            self.stack(),
            #[trigger] self.packets()[i],
        ) by {
            assert(shaped(self.protocols@, self.data@[i]@));
        }
        lemma_flattened_len(self.stack(), self.packets());
    }

    /// Starts a flow with its first packet.
    ///
    /// A stack that is empty or names a protocol twice is refused.
    pub fn new(packet: &[u8], protocols: Vec<ProtocolType>) -> (created: Result<Nprint, StackError>)
        ensures
            match created {
                Ok(nprint) => valid_stack(protocols@) && nprint.wf() && nprint.stack()
                    == protocols@ && nprint.packets() == seq![
                    frame_encoding(packet@, protocols@),
                ],
                Err(error) => stack_fault(protocols@) == Some(error),
            },
    {
        match check_stack(&protocols) {
            Ok(()) => {
                let mut data: Vec<Headers> = Vec::new();
                data.push(Headers::new(packet, protocols.as_slice()));
                proof {
                    lemma_frame_encoding_shaped(packet@, protocols@);
                }
                let nprint = Nprint { data, protocols, nb_pkt: 1 };
                Ok(nprint)
            },
            Err(error) => Err(error),
        }
    }

    /// All encodings one behind the other: packet by packet, and within a
    /// packet header by header in stack order.
    pub fn print(&self) -> (output: Vec<i8>)
        requires
            self.wf(),
        ensures
            output@ == flattened(self.packets()),
            output@.len() == self.packets().len() * stack_width(self.stack()),
            ternary(output@),
    {
        let mut output: Vec<i8> = Vec::new();
        let ghost flats = self.packets().map_values(|headers: Seq<Seq<i8>>| headers.flatten());
        let mut i: usize = 0;
        while i < self.data.len()
            invariant
                self.wf(),
                flats == self.packets().map_values(|headers: Seq<Seq<i8>>| headers.flatten()),
                i <= self.data@.len(),
                output@ == flats.take(i as int).flatten(),
                output@.len() == i * stack_width(self.stack()),
                ternary(output@),
            decreases self.data@.len() - i,
        {
            let mut flat = self.data[i].flatten();
            proof {
                assert(flats.take(i + 1) =~= flats.take(i as int).push(flat@));
                flats.take(i as int).lemma_flatten_push(flat@);
                assert((i + 1) * stack_width(self.stack()) == i * stack_width(self.stack())
                    + stack_width(self.stack())) by (nonlinear_arith);
            }
            output.append(&mut flat);
            i += 1;
        }
        assert(flats.take(i as int) =~= flats);
        output
    }

    /// Encodes one more packet of the flow, under the flow's stack.
    pub fn add(&mut self, packet: &[u8])
        requires
            old(self).wf(),
        ensures
            final(self).wf(),
            final(self).stack() == old(self).stack(),
            final(self).packets() == old(self).packets().push(
                frame_encoding(packet@, old(self).stack()),
            ),
    {
        let headers = Headers::new(packet, self.protocols.as_slice());
        proof {
            lemma_frame_encoding_shaped(packet@, self.protocols@);
        }
        self.data.push(headers);
        self.nb_pkt = self.data.len();
    }

    /// The number of packets of the flow.
    pub fn count(&self) -> (n: usize)
        requires
            self.wf(),
        ensures
            n == self.packets().len(),
            n >= 1,
    {
        self.nb_pkt
    }

    /// The names of the positions of one packet: those of each protocol of
    /// the stack, in stack order. The names do not depend on how many packets
    /// the flow holds.
    pub fn get_headers(&self) -> (names: Vec<String>)
        requires
            self.wf(),
        ensures
            names.deep_view() == stack_columns(self.stack()),
            names@.len() == stack_width(self.stack()),
    {
        let mut names: Vec<String> = Vec::new();
        let mut i: usize = 0;
        while i < self.protocols.len()
            invariant
                i <= self.protocols@.len(),
                names.deep_view() == stack_columns(self.protocols@.take(i as int)),
                names@.len() == stack_width(self.protocols@.take(i as int)),
            decreases self.protocols@.len() - i,
        {
            let mut part = match self.protocols[i] {
                ProtocolType::Ipv4 => Ipv4Header::get_headers(),
                ProtocolType::Tcp => TcpHeader::get_headers(),
                ProtocolType::Udp => UdpHeader::get_headers(),
            };
            names.append(&mut part);
            proof {
                assert(self.protocols@.take(i + 1).drop_last() =~= self.protocols@.take(i as int));
            }
            i += 1;
        }
        assert(self.protocols@.take(i as int) =~= self.protocols@);
        names
    }

    /// Sets the sensitive positions of every stored encoding to `0`: the
    /// addresses of IPv4 and the ports of TCP.
    pub fn anonymize(&mut self)
        requires
            old(self).wf(),
        ensures
            final(self).wf(),
            final(self).stack() == old(self).stack(),
            final(self).packets() == packets_anonymized(old(self).stack(), old(self).packets()),
    {
        let mut i: usize = 0;
        while i < self.data.len()
            invariant
                self.wf(),
                self.protocols == old(self).protocols,
                i <= self.data@.len(),
                self.data@.len() == old(self).data@.len(),
                forall|k: int|
                    0 <= k < i ==> (#[trigger] self.data@[k])@ == headers_anonymized(
                        self.protocols@,
                        old(self).data@[k]@,
                    ),
                forall|k: int|
                    i <= k < self.data@.len() ==> (#[trigger] self.data@[k])@ == old(
                        self,
                    ).data@[k]@,
            decreases self.data@.len() - i,
        {
            proof {
                lemma_headers_anonymized_shaped(self.protocols@, self.data@[i as int]@);
            }
            self.data[i].anonymize();
            i += 1;
        }
    }
}

} // verus!
