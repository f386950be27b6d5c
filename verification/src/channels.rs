//! The two `tokio` channels of a connection: inbound packets and the connection status.
//!
//! A sender here is the only handle that sends on its channel: it is made with the channel, it is
//! never cloned, and no other crate sees the handle inside it. The names below are therefore
//! functions of what was done through that one handle.

use crate::connection::ConnectionStatus;
use tokio::sync::{mpsc, watch};
use vstd::prelude::*;

verus! {

/// `tokio::sync::mpsc::Sender`, the end of a bounded queue that is sent to.
#[verifier::external_type_specification]
#[verifier::external_body]
#[verifier::reject_recursive_types(T)]
pub struct ExPacketQueueSender<T>(tokio::sync::mpsc::Sender<T>);

/// `tokio::sync::mpsc::Receiver`, the end of a bounded queue that is read.
#[verifier::external_type_specification]
#[verifier::external_body]
#[verifier::reject_recursive_types(T)]
pub struct ExPacketQueueReceiver<T>(tokio::sync::mpsc::Receiver<T>);

/// `tokio::sync::watch::Sender`, the end of a watch channel that is sent to.
#[verifier::external_type_specification]
#[verifier::external_body]
#[verifier::reject_recursive_types(T)]
pub struct ExStatusWatchSender<T>(tokio::sync::watch::Sender<T>);

/// `tokio::sync::watch::Receiver`, the end of a watch channel that is read.
#[verifier::external_type_specification]
#[verifier::external_body]
#[verifier::reject_recursive_types(T)]
pub struct ExStatusWatchReceiver<T>(tokio::sync::watch::Receiver<T>);

/// What a queue answered to the packets that were offered to it so far, oldest first.
pub uninterp spec fn queue_answers(sender: mpsc::Sender<Vec<u8>>) -> Seq<SendOutcome>;

/// The packets that were offered to a queue through its sender so far, oldest first, whether or not
/// it took them.
pub uninterp spec fn offered_packets(sender: mpsc::Sender<Vec<u8>>) -> Seq<Seq<u8>>;

/// The packets that a queue has taken from its sender so far, oldest first, whether or not they
/// have been read since.
pub uninterp spec fn accepted_packets(sender: mpsc::Sender<Vec<u8>>) -> Seq<Seq<u8>>;

/// The number of packets whose room the reader of a queue had given back, by reading them, when a
/// packet was last offered. The others that the queue had taken were waiting unread.
pub uninterp spec fn packets_read(sender: mpsc::Sender<Vec<u8>>) -> nat;

/// The number of unread packets that a queue was made to hold.
pub uninterp spec fn packet_limit(sender: mpsc::Sender<Vec<u8>>) -> nat;

/// Whether what a queue takes from `sender` comes out of `receiver`.
pub uninterp spec fn packets_reach(
    sender: mpsc::Sender<Vec<u8>>,
    receiver: mpsc::Receiver<Vec<u8>>,
) -> bool;

/// The packets that come out of `receiver`, first to last, once it has been read until nothing is
/// left of what `sender` has sent so far.
pub uninterp spec fn packets_out(
    sender: mpsc::Sender<Vec<u8>>,
    receiver: mpsc::Receiver<Vec<u8>>,
) -> Seq<Seq<u8>>;

/// The statuses that a watch channel has held so far, oldest first. The last is the one it holds.
pub uninterp spec fn published_statuses(sender: watch::Sender<ConnectionStatus>) -> Seq<
    ConnectionStatus,
>;

/// Whether `receiver` sees the status that the channel of `sender` holds.
pub uninterp spec fn status_reaches(
    sender: watch::Sender<ConnectionStatus>,
    receiver: watch::Receiver<ConnectionStatus>,
) -> bool;

/// The sending end of a packet queue.
#[derive(Debug)]
pub struct PacketSender {
    pub(crate) sender: mpsc::Sender<Vec<u8>>,
}

/// The sending end of a status channel.
#[derive(Debug)]
pub struct StatusSender {
    pub(crate) sender: watch::Sender<ConnectionStatus>,
}

/// What became of a packet that was offered to a queue.
#[derive(Debug, PartialEq, Eq)]
pub enum SendOutcome {
    /// The queue took it.
    Accepted,
    /// The queue was full; here is the packet.
    Full(Vec<u8>),
    /// Nobody reads the queue any more; here is the packet.
    Closed(Vec<u8>),
}

/// Makes a queue with `tokio::sync::mpsc::channel`, which panics on a capacity of zero or of more
/// permits than its semaphore counts. The queue is empty, holds `limit` packets, and joins the
/// two ends that are returned.
#[verifier::external_body]
pub(crate) fn packet_queue(limit: usize) -> (ends: (PacketSender, mpsc::Receiver<Vec<u8>>))
    requires
        0 < limit <= usize::MAX / 8,
    ensures
        queue_answers(ends.0.sender) == Seq::<SendOutcome>::empty(),
        offered_packets(ends.0.sender) == Seq::<Seq<u8>>::empty(),
        accepted_packets(ends.0.sender) == Seq::<Seq<u8>>::empty(),
        packets_read(ends.0.sender) == 0,
        packet_limit(ends.0.sender) == limit,
        packets_reach(ends.0.sender, ends.1),
        packets_out(ends.0.sender, ends.1) == Seq::<Seq<u8>>::empty(),
{
    let (sender, receiver) = mpsc::channel(limit);
    (PacketSender { sender }, receiver)
}

/// Offers a packet with `tokio::sync::mpsc::Sender::try_send`, which never waits. Either the queue
/// takes the packet, or it is handed back. Of a queue that is not closed, it is taken where fewer
/// packets wait unread at that moment than the queue can hold, and handed back as `Full` where as
/// many do. It is handed back as `Closed` where the receiver is closed or gone. How many packets
/// have been read by then, and whether the receiver is there, is up to the reader. What the queue
/// takes comes out of its receiver unchanged, once, and behind all that it took before.
#[verifier::external_body]
pub(crate) fn offer_packet(sender: &mut PacketSender, packet: Vec<u8>) -> (outcome: SendOutcome)
    ensures
        queue_answers(final(sender).sender) == queue_answers(old(sender).sender).push(outcome),
        offered_packets(final(sender).sender) == offered_packets(old(sender).sender).push(packet@),
        outcome is Accepted ==> accepted_packets(final(sender).sender) == accepted_packets(
            old(sender).sender,
        ).push(packet@),
        outcome !is Accepted ==> accepted_packets(final(sender).sender) == accepted_packets(
            old(sender).sender,
        ),
        outcome matches SendOutcome::Full(back) ==> back@ == packet@,
        outcome matches SendOutcome::Closed(back) ==> back@ == packet@,
        packets_read(old(sender).sender) <= packets_read(final(sender).sender),
        packets_read(final(sender).sender) <= accepted_packets(old(sender).sender).len(),
        outcome is Accepted ==> accepted_packets(old(sender).sender).len() - packets_read(
            final(sender).sender,
        ) < packet_limit(old(sender).sender),
        outcome is Full ==> accepted_packets(old(sender).sender).len() - packets_read(
            final(sender).sender,
        ) >= packet_limit(old(sender).sender),
        packet_limit(final(sender).sender) == packet_limit(old(sender).sender),
        forall|receiver: mpsc::Receiver<Vec<u8>>| #[trigger]
            packets_reach(final(sender).sender, receiver) == packets_reach(
                old(sender).sender,
                receiver,
            ),
        forall|receiver: mpsc::Receiver<Vec<u8>>|
            packets_reach(old(sender).sender, receiver) ==> #[trigger] packets_out(
                final(sender).sender,
                receiver,
            ) == if outcome is Accepted {
                packets_out(old(sender).sender, receiver).push(packet@)
            } else {
                packets_out(old(sender).sender, receiver)
            },
{
    match sender.sender.try_send(packet) {
        Ok(()) => SendOutcome::Accepted,
        Err(mpsc::error::TrySendError::Full(back)) => SendOutcome::Full(back),
        Err(mpsc::error::TrySendError::Closed(back)) => SendOutcome::Closed(back),
    }
}

/// Makes a status channel with `tokio::sync::watch::channel`. The channel holds `status` and joins
/// the two ends that are returned.
#[verifier::external_body]
pub(crate) fn status_channel(status: ConnectionStatus) -> (ends: (
    StatusSender,
    watch::Receiver<ConnectionStatus>,
))
    ensures
        published_statuses(ends.0.sender) == seq![status],
        status_reaches(ends.0.sender, ends.1),
{
    let (sender, receiver) = watch::channel(status);
    (StatusSender { sender }, receiver)
}

/// Publishes a status with `tokio::sync::watch::Sender::send_replace`, which stores it whether or
/// not anybody watches and returns the status that it replaces.
#[verifier::external_body]
pub(crate) fn publish_status(sender: &mut StatusSender, status: ConnectionStatus) -> (previous:
    ConnectionStatus)
    ensures
        published_statuses(final(sender).sender) == published_statuses(old(sender).sender).push(
            status,
        ),
        published_statuses(old(sender).sender).len() > 0 ==> previous == published_statuses(
            old(sender).sender,
        ).last(),
        forall|receiver: watch::Receiver<ConnectionStatus>| #[trigger]
            status_reaches(final(sender).sender, receiver) == status_reaches(
                old(sender).sender,
                receiver,
            ),
{
    sender.sender.send_replace(status)
}

/// Copies a receiver with `Clone` of `tokio::sync::watch::Receiver`: the copy watches the same
/// channel.
#[verifier::external_body]
pub(crate) fn copy_status_receiver(receiver: &watch::Receiver<ConnectionStatus>) -> (copy:
    watch::Receiver<ConnectionStatus>)
    ensures
        forall|sender: watch::Sender<ConnectionStatus>| #[trigger]
            status_reaches(sender, copy) == status_reaches(sender, *receiver),
{
    receiver.clone()
}

} // verus!
