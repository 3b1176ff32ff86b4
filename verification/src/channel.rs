//! Bounded channels between the tasks of one query.

use vstd::prelude::*;
use crate::packet::DataPacket;

verus! {

/// The sending half of a channel.
#[verifier::external_type_specification]
#[verifier::external_body]
#[verifier::reject_recursive_types(T)]
pub struct ExSender<T>(async_channel::Sender<T>);

/// The receiving half of a channel.
#[verifier::external_type_specification]
#[verifier::external_body]
#[verifier::reject_recursive_types(T)]
pub struct ExReceiver<T>(async_channel::Receiver<T>);

/// Calls `async_channel::bounded`, which makes a channel that holds at most
/// `capacity` messages and panics on a capacity of zero. Nothing is claimed
/// of the two halves.
#[verifier::external_body]
pub(crate) fn bounded_channel(capacity: usize) -> (halves: (
    async_channel::Sender<DataPacket>,
    async_channel::Receiver<DataPacket>,
))
    requires
        capacity > 0,
{
    async_channel::bounded(capacity)
}

/// Calls `clone` of `async_channel::Sender`, which makes another handle to
/// the same channel: what is sent through either arrives at the same
/// receivers, so the two count as equal.
#[verifier::external_body]
pub(crate) fn clone_sender(tx: &async_channel::Sender<DataPacket>) -> (copy: async_channel::Sender<
    DataPacket,
>)
    ensures
        copy == *tx,
{
    tx.clone()
}

} // verus!
