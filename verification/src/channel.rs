//! Trusted declarations for the drop-oldest channels the pipeline runs
//! on, and the verified drain-to-newest receive discipline.
//!
//! A channel's contents depend on what other threads do, so nothing is
//! promised about which message arrives; the wrappers only convert the
//! outside results to plain values.
use vstd::prelude::*;

use crate::types::Frame;

verus! {

/// Declares crossbeam_channel::Receiver, the consuming end of a channel,
/// as an opaque type.
#[verifier::external_type_specification]
#[verifier::external_body]
#[verifier::reject_recursive_types(T)]
pub struct ExReceiver<T>(crossbeam_channel::Receiver<T>);

/// Declares crossbeam_channel::Sender, the producing end of a channel,
/// as an opaque type.
#[verifier::external_type_specification]
#[verifier::external_body]
#[verifier::reject_recursive_types(T)]
pub struct ExSender<T>(crossbeam_channel::Sender<T>);

/// Relies on crossbeam_channel::Receiver::recv: blocks until a message
/// arrives or every sender is gone; `None` stands for disconnection.
#[verifier::external_body]
pub fn channel_recv<T>(rx: &crossbeam_channel::Receiver<T>) -> (r: Option<T>) {
    rx.recv().ok()
}

/// Relies on crossbeam_channel::Receiver::try_recv: returns immediately;
/// `None` stands for an empty or disconnected channel.
#[verifier::external_body]
pub fn channel_try_recv<T>(rx: &crossbeam_channel::Receiver<T>) -> (r: Option<T>) {
    rx.try_recv().ok()
}

/// Relies on crossbeam_channel::Sender::try_send: never blocks; `false`
/// means the message was dropped because the channel was full or
/// disconnected — the backpressure signal.
#[verifier::external_body]
pub fn channel_try_send<T>(tx: &crossbeam_channel::Sender<T>, msg: T) -> (r: bool) {
    tx.try_send(msg).is_ok()
}

/// How many queued items one receive may discard; the queues have
/// capacity one, so a single successful drain empties them, and the cap
/// keeps a fast producer from starving the consumer.
pub const DRAIN_BUDGET: u64 = 64;

/// Wait for the next item, then drain the queue so only the newest item
/// is consumed; older queued items are discarded, never reordered.
/// `None` stands for a disconnected producer.
pub fn recv_latest<T>(rx: &crossbeam_channel::Receiver<T>) -> (r: Option<T>) {
    let first = channel_recv(rx);
    let mut newest = match first {
        Some(m) => m,
        None => {
            return None;
        },
    };
    let mut budget: u64 = DRAIN_BUDGET;
    while budget > 0
        decreases budget,
    {
        match channel_try_recv(rx) {
            Some(newer) => {
                newest = newer;
            },
            None => {
                return Some(newest);
            },
        }
        budget = budget - 1;
    }
    Some(newest)
}

/// Wait for the next frame and drain to the freshest one.
pub fn recv_latest_frame(frame_rx: &crossbeam_channel::Receiver<Frame>) -> (r: Option<Frame>) {
    recv_latest(frame_rx)
}

} // verus!
