//! The message bridge: two first-in-first-out byte queues between the
//! simulation loop and the background network task.
//!
//! The foreground owns one receiving end (inbound payloads) and one sending
//! end (outbound payloads); the background task owns the opposite ends and
//! only moves raw bytes. Everything that interprets bytes — encoding a
//! message, decoding a payload, dropping a malformed one — happens here, in
//! verified code.

use vstd::prelude::*;

use crate::message::{decode_message, encode_message, MultiplayerGameMessage};

verus! {

#[verifier::external_type_specification]
#[verifier::external_body]
#[verifier::reject_recursive_types(T)]
pub struct ExFlumeSender<T>(flume::Sender<T>);

#[verifier::external_type_specification]
#[verifier::external_body]
#[verifier::reject_recursive_types(T)]
pub struct ExFlumeReceiver<T>(flume::Receiver<T>);

/// The peer's end of the channel is gone; nothing more can be sent.
#[derive(Clone, Copy, Debug, PartialEq, Eq, Structural)]
pub struct ChannelClosed;

/// Relies on flume::Sender::send on an unbounded channel: it queues the
/// payload without blocking and errs exactly when every receiver was
/// dropped.
#[verifier::external_body]
fn send_raw(tx: &flume::Sender<Vec<u8>>, payload: Vec<u8>) -> (r: Result<(), ChannelClosed>) {
    tx.send(payload).map_err(|_| ChannelClosed)
}

/// Relies on flume::Receiver::try_recv: it pops the oldest queued payload
/// without blocking, or returns nothing when the queue is empty or
/// disconnected.
#[verifier::external_body]
fn try_recv_raw(rx: &flume::Receiver<Vec<u8>>) -> (r: Option<Vec<u8>>) {
    rx.try_recv().ok()
}

/// The foreground half of one session's bridge.
pub struct MultiplayerTransport {
    /// Inbound: payloads the background task received from the peer.
    pub event_buffer: flume::Receiver<Vec<u8>>,
    /// Outbound: payloads for the background task to forward to the peer.
    pub event_push_buffer: flume::Sender<Vec<u8>>,
}

impl MultiplayerTransport {
    /// Assembles a bridge from the foreground ends of the two queues.
    pub fn new(
        event_buffer: flume::Receiver<Vec<u8>>,
        event_push_buffer: flume::Sender<Vec<u8>>,
    ) -> (t: MultiplayerTransport)
        ensures
            t.event_buffer == event_buffer,
            t.event_push_buffer == event_push_buffer,
    {
        MultiplayerTransport { event_buffer, event_push_buffer }
    }

    /// Encodes `msg` and queues it for the peer, in order. Errs exactly
    /// when the outbound queue is disconnected.
    pub fn send(&self, msg: &MultiplayerGameMessage) -> Result<(), ChannelClosed> {
        let payload = encode_message(msg);
        send_raw(&self.event_push_buffer, payload)
    }

    /// Pops the oldest inbound payload, if any, and decodes it. A payload
    /// that does not decode as a message is dropped — it yields `None` and
    /// leaves later payloads receivable. Never blocks.
    pub fn try_receive(&self) -> Option<MultiplayerGameMessage> {
        match try_recv_raw(&self.event_buffer) {
            Some(payload) => decode_message(payload.as_slice()),
            None => None,
        }
    }
}

} // verus!
