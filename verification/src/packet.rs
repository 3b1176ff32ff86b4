//! The unit that travels between nodes, and what a receiver makes of it.

use vstd::prelude::*;
use crate::error::ErrorCode;

verus! {

/// A batch of rows. A row stands as one number.
#[derive(Debug, PartialEq, Eq)]
pub struct DataBlock {
    pub rows: Vec<u64>,
}

impl View for DataBlock {
    type V = Seq<u64>;

    open spec fn view(&self) -> Seq<u64> {
        self.rows@
    }
}

/// What one node sends to another: rows of a fragment, or the failure of the
/// producer.
#[derive(Debug, PartialEq, Eq)]
pub enum DataPacket {
    Data(usize, DataBlock),
    ErrorCode(ErrorCode),
}

/// One item of an inbound stream, as the transport hands it over.
#[derive(Debug, PartialEq, Eq)]
pub enum StreamItem {
    /// The transport failed.
    Status(ErrorCode),
    /// The item arrived and could not be decoded.
    Malformed(ErrorCode),
    /// The item arrived and was decoded.
    Packet(DataPacket),
}

/// The packet that an inbound item stands for.
pub open spec fn packet_of(item: StreamItem) -> DataPacket {
    match item {
        StreamItem::Status(e) => DataPacket::ErrorCode(e),
        StreamItem::Malformed(e) => DataPacket::ErrorCode(e),
        StreamItem::Packet(p) => p,
    }
}

/// What the task that drains an inbound stream does next.
#[derive(Debug, PartialEq, Eq)]
pub enum ReceiveAction {
    /// Put the packet into the channel of the source.
    Forward(DataPacket),
    /// The stream has ended: stop.
    Finish,
}

/// Turns one inbound item into the packet to hand on. A failure of the
/// transport and an item that cannot be decoded become packets that carry
/// the failure, so that the consumer sees it.
pub fn inbound_packet(item: StreamItem) -> (packet: DataPacket)
    ensures
        packet == packet_of(item),
{
    match item {
        StreamItem::Status(e) => DataPacket::ErrorCode(e),
        StreamItem::Malformed(e) => DataPacket::ErrorCode(e),
        StreamItem::Packet(p) => p,
    }
}

/// Decides what the draining task does with what the stream yields: it
/// forwards every item as a packet and stops when the stream ends.
pub fn receive_step(next: Option<StreamItem>) -> (action: ReceiveAction)
    ensures
        action == match next {
            Some(item) => ReceiveAction::Forward(packet_of(item)),
            None => ReceiveAction::Finish,
        },
{
    match next {
        Some(item) => ReceiveAction::Forward(inbound_packet(item)),
        None => ReceiveAction::Finish,
    }
}

/// Whether the draining task goes on after it tried to forward a packet:
/// it does while the channel takes packets, and stops once it is closed.
pub fn continue_after_forward(delivered: bool) -> (go_on: bool)
    ensures
        go_on == delivered,
{
    delivered
}

/// What a source processor hands to its pipeline for a received packet: the
/// rows, or the failure that the packet carries.
pub fn source_step(packet: DataPacket) -> (r: Result<DataBlock, ErrorCode>)
    ensures
        r == match packet {
            DataPacket::Data(_, block) => Ok::<DataBlock, ErrorCode>(block),
            DataPacket::ErrorCode(e) => Err::<DataBlock, ErrorCode>(e),
        },
{
    match packet {
        DataPacket::Data(_, block) => Ok(block),
        DataPacket::ErrorCode(e) => Err(e),
    }
}

} // verus!
