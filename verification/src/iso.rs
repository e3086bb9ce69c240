//! The isochronous transfer engine: sizing a multi-packet IN transfer
//! from the requested per-packet lengths, and decoding the per-packet
//! native completion codes after submission.

use vstd::prelude::*;

use crate::Direction;
use crate::UsbError;
use crate::spec_endpoint_address;
use crate::status::LIBUSB_SUCCESS;
use crate::status::WebUSBTransferStatus;
use crate::status::spec_transfer_status;

verus! {

/// One received packet of an isochronous transfer: its payload and its
/// decoded completion status.
#[derive(Debug)]
pub struct IsochronousPacket {
    pub data: Vec<u8>,
    pub status: WebUSBTransferStatus,
}

impl IsochronousPacket {
    /// Builds a packet from its payload and status.
    pub fn new(data: Vec<u8>, status: WebUSBTransferStatus) -> (packet: Self)
        ensures
            packet.data == data,
            packet.status == status,
    {
        Self { data, status }
    }
}

/// An ordered collection of received isochronous packets.
#[derive(Debug)]
pub struct IsochronousPackets(Vec<IsochronousPacket>);

impl IsochronousPackets {
    /// The packets collected so far.
    pub closed spec fn packets_seq(self) -> Seq<IsochronousPacket> {
        self.0@
    }

    /// An empty collection.
    pub fn new() -> (collection: Self)
        ensures
            collection.packets_seq() == Seq::<IsochronousPacket>::empty(),
    {
        let collection = IsochronousPackets(Vec::new());
        proof {
            assert(collection.packets_seq() =~= Seq::<IsochronousPacket>::empty());
        }
        collection
    }

    /// Appends a packet.
    pub fn push(&mut self, packet: IsochronousPacket)
        ensures
            final(self).packets_seq() == old(self).packets_seq().push(packet),
    {
        self.0.push(packet);
    }

    /// The collected packets, in arrival order.
    pub fn packets(self) -> (all: Vec<IsochronousPacket>)
        ensures
            all@ == self.packets_seq(),
    {
        self.0
    }
}

/// The outcome of an isochronous IN transfer: the per-packet statuses and
/// the single contiguous buffer the packets were received into.
#[derive(Debug)]
pub struct IsochronousTransferOutResult {
    pub packets: Vec<IsochronousPacket>,
    pub data: Vec<u8>,
}

impl IsochronousTransferOutResult {
    /// Builds a transfer outcome from its packets and buffer.
    pub fn new(packets: Vec<IsochronousPacket>, data: Vec<u8>) -> (result: Self)
        ensures
            result.packets == packets,
            result.data == data,
    {
        Self { packets, data }
    }
}

/// The sum of the requested per-packet lengths.
pub open spec fn spec_total_length(lengths: Seq<u32>) -> int
    decreases lengths.len(),
{
    if lengths.len() == 0 {
        0
    } else {
        spec_total_length(lengths.drop_last()) + lengths.last()
    }
}

/// A prefix of the requested lengths never sums to more than the whole:
/// every length is non-negative.
proof fn lemma_total_length_prefix(lengths: Seq<u32>, count: int)
    requires
        0 <= count <= lengths.len(),
    ensures
        spec_total_length(lengths.take(count)) <= spec_total_length(lengths),
    decreases lengths.len() - count,
{
    if count == lengths.len() {
        assert(lengths.take(count) =~= lengths);
    } else {
        assert(lengths.take(count + 1).drop_last() =~= lengths.take(count));
        assert(spec_total_length(lengths.take(count)) <= spec_total_length(lengths.take(count + 1)));
        lemma_total_length_prefix(lengths, count + 1);
    }
}

/// Decides whether a sequence of requested packet lengths can be sized
/// into a native transfer: both the packet count and the total buffer
/// length must fit the native interface's signed 32-bit fields.
pub fn iso_lengths_admissible(packet_lengths: &Vec<u32>) -> (admissible: bool)
    ensures
        admissible <==> (packet_lengths@.len() <= 0x7fffffff && spec_total_length(packet_lengths@)
            <= 0x7fffffff),
{
    if packet_lengths.len() > 0x7fffffff {
        proof {
            lemma_total_length_prefix(packet_lengths@, packet_lengths@.len() as int);
        }
        return false;
    }
    let mut total: u32 = 0;
    let mut idx: usize = 0;
    proof {
        assert(packet_lengths@.take(0) =~= Seq::<u32>::empty());
    }
    while idx < packet_lengths.len()
        invariant
            idx <= packet_lengths@.len(),
            total == spec_total_length(packet_lengths@.take(idx as int)),
            total <= 0x7fffffff,
        decreases packet_lengths@.len() - idx,
    {
        let next = packet_lengths[idx];
        proof {
            assert(packet_lengths@.take(idx as int + 1).drop_last() =~= packet_lengths@.take(
                idx as int,
            ));
        }
        if next > 0x7fffffff - total {
            proof {
                lemma_total_length_prefix(packet_lengths@, idx as int + 1);
            }
            return false;
        }
        total = total + next;
        idx = idx + 1;
    }
    proof {
        assert(packet_lengths@.take(packet_lengths@.len() as int) =~= packet_lengths@);
    }
    true
}

/// The sizing of a native isochronous IN transfer: the canonical IN
/// endpoint address, the packet count, the length of the single
/// contiguous buffer, and the per-packet length fields to fill in.
#[derive(Debug)]
pub struct IsochronousTransferPlan {
    pub endpoint_address: u8,
    pub num_packets: usize,
    pub total_length: u32,
    pub packet_lengths: Vec<u32>,
}

/// Sizes a native isochronous IN transfer: the endpoint address is the
/// endpoint number with the direction bit forced IN, the buffer length is
/// the sum of the requested packet lengths.
pub fn build_iso_plan(endpoint_number: u8, packet_lengths: Vec<u32>) -> (plan:
    IsochronousTransferPlan)
    requires
        packet_lengths@.len() <= 0x7fffffff,
        spec_total_length(packet_lengths@) <= 0x7fffffff,
    ensures
        plan.endpoint_address == spec_endpoint_address(endpoint_number, Direction::In),
        plan.num_packets == packet_lengths@.len(),
        plan.total_length == spec_total_length(packet_lengths@),
        plan.packet_lengths == packet_lengths,
{
    let mut total: u32 = 0;
    let mut idx: usize = 0;
    proof {
        assert(packet_lengths@.take(0) =~= Seq::<u32>::empty());
    }
    while idx < packet_lengths.len()
        invariant
            idx <= packet_lengths@.len(),
            total == spec_total_length(packet_lengths@.take(idx as int)),
            spec_total_length(packet_lengths@) <= 0x7fffffff,
        decreases packet_lengths@.len() - idx,
    {
        proof {
            assert(packet_lengths@.take(idx as int + 1).drop_last() =~= packet_lengths@.take(
                idx as int,
            ));
            lemma_total_length_prefix(packet_lengths@, idx as int + 1);
        }
        total = total + packet_lengths[idx];
        idx = idx + 1;
    }
    proof {
        assert(packet_lengths@.take(packet_lengths@.len() as int) =~= packet_lengths@);
    }
    let num_packets = packet_lengths.len();
    IsochronousTransferPlan {
        endpoint_address: endpoint_number | 0x80,
        num_packets,
        total_length: total,
        packet_lengths,
    }
}

/// Decodes a submitted isochronous transfer: a non-success submission
/// code fails with `SubmissionFailure`; otherwise each per-packet native
/// completion code is decoded into a packet with an empty payload, and
/// the contiguous receive buffer is returned alongside them.
pub fn decode_iso_transfer(submit_code: i32, statuses: &Vec<i32>, buffer: Vec<u8>) -> (outcome:
    Result<IsochronousTransferOutResult, UsbError>)
    ensures
        match outcome {
            Ok(result) => {
                &&& submit_code == LIBUSB_SUCCESS
                &&& result.packets@.len() == statuses@.len()
                &&& forall|i: int|
                    0 <= i < statuses@.len() ==> (#[trigger] result.packets@[i]).status
                        == spec_transfer_status(statuses@[i]) && result.packets@[i].data@.len() == 0
                &&& result.data == buffer
            },
            Err(failure) => failure == UsbError::SubmissionFailure && submit_code != LIBUSB_SUCCESS,
        },
{
    if submit_code != LIBUSB_SUCCESS {
        return Err(UsbError::SubmissionFailure);
    }
    let mut packets = IsochronousPackets::new();
    let mut idx: usize = 0;
    while idx < statuses.len()
        invariant
            idx <= statuses@.len(),
            packets.packets_seq().len() == idx,
            forall|i: int|
                0 <= i < idx ==> (#[trigger] packets.packets_seq()[i]).status
                    == spec_transfer_status(statuses@[i]) && packets.packets_seq()[i].data@.len()
                    == 0,
        decreases statuses@.len() - idx,
    {
        let status = WebUSBTransferStatus::from_libusb_status(statuses[idx]);
        let packet = IsochronousPacket::new(Vec::new(), status);
        packets.push(packet);
        idx = idx + 1;
    }
    Ok(IsochronousTransferOutResult::new(packets.packets(), buffer))
}

} // verus!
