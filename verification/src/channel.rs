use vstd::prelude::*;
use crossbeam_channel::{Receiver, Sender};
use std::time::Duration;
use crate::message::MessageWrapper;

verus! {

#[verifier::external_type_specification]
#[verifier::external_body]
#[verifier::reject_recursive_types(T)]
pub struct ExSender<T>(Sender<T>);

#[verifier::external_type_specification]
#[verifier::external_body]
#[verifier::reject_recursive_types(T)]
pub struct ExReceiver<T>(Receiver<T>);

// The queues are shared between threads: any clone of a sender or receiver
// may add or take messages at any moment. So what a queue holds is not a
// function of the handle in hand, and the operations below state nothing of
// the messages they move. What is stated: a clone of a handle is the same
// handle (it copies the pointer to the shared channel), a queue's capacity
// is fixed when it is opened, and each operation reports the call it made.

/// The capacity of the queue behind `rx` (what `Receiver::capacity` reports
/// for a bounded queue), fixed when the queue is opened.
pub uninterp spec fn queue_capacity(rx: Receiver<MessageWrapper>) -> usize;

/// Opens a bounded queue of capacity `cap` (`crossbeam_channel::bounded`),
/// whose receiving end reports that capacity. The source panics when the lap
/// arithmetic for `cap` overflows or the slot buffer cannot be laid out; a
/// slot of this queue (a 64-bit stamp and a `MessageWrapper`) takes at most
/// 32 bytes, so `requires` keeps the buffer within `isize::MAX` bytes, which
/// rules both out.
#[verifier::external_body]
pub(crate) fn open_channel(cap: usize) -> (r: (Sender<MessageWrapper>, Receiver<MessageWrapper>))
    requires
        cap * 32 <= isize::MAX,
    ensures
        queue_capacity(r.1) == cap,
{
    crossbeam_channel::bounded(cap)
}

/// A record of one operation made on a queue: which operation, on which
/// handle, with which message or wait, and, for a take, what came back.
/// Each operation below hands back the record of the call it made, so a
/// caller's contract can state which calls were made, though not what the
/// queue then holds.
pub enum QueueCall {
    /// `Sender::is_full`, and its answer.
    CheckFull { sender: Sender<MessageWrapper>, full: bool },
    /// `Sender::try_send` of `msg`.
    Offer { sender: Sender<MessageWrapper>, msg: MessageWrapper },
    /// `Sender::send` of `msg`.
    Send { sender: Sender<MessageWrapper>, msg: MessageWrapper },
    /// `Sender::send_timeout` of `msg`, waiting at most `ms` milliseconds.
    SendWithin { sender: Sender<MessageWrapper>, msg: MessageWrapper, ms: u64 },
    /// `Receiver::try_recv`, and the message it gave, if any.
    TakeNow { receiver: Receiver<MessageWrapper>, got: Option<MessageWrapper> },
    /// `Receiver::recv`, and the message it gave, if any.
    TakeBlocking { receiver: Receiver<MessageWrapper>, got: Option<MessageWrapper> },
    /// `Receiver::recv_timeout` waiting at most `ms` milliseconds, and the
    /// message it gave, if any.
    TakeWithin { receiver: Receiver<MessageWrapper>, ms: u64, got: Option<MessageWrapper> },
}

/// Whether the queue is full at the moment of the call (`Sender::is_full`).
#[verifier::external_body]
pub(crate) fn queue_is_full(tx: &Sender<MessageWrapper>) -> (r: (bool, Ghost<QueueCall>))
    ensures
        r.1@ == (QueueCall::CheckFull { sender: *tx, full: r.0 }),
{
    let full = tx.is_full();
    (full, Ghost(QueueCall::CheckFull { sender: *tx, full }))
}

/// Offers `msg` without waiting (`Sender::try_send`); `true` when the queue
/// took it.
#[verifier::external_body]
pub(crate) fn offer(tx: &Sender<MessageWrapper>, msg: MessageWrapper) -> (r: (bool, Ghost<QueueCall>))
    ensures
        r.1@ == (QueueCall::Offer { sender: *tx, msg }),
{
    let ghost record = QueueCall::Offer { sender: *tx, msg };
    (tx.try_send(msg).is_ok(), Ghost(record))
}

/// Sends `msg`, waiting for room (`Sender::send`); `false` when every
/// receiver is gone.
#[verifier::external_body]
pub(crate) fn send_blocking(tx: &Sender<MessageWrapper>, msg: MessageWrapper) -> (r: (bool, Ghost<QueueCall>))
    ensures
        r.1@ == (QueueCall::Send { sender: *tx, msg }),
{
    let ghost record = QueueCall::Send { sender: *tx, msg };
    (tx.send(msg).is_ok(), Ghost(record))
}

/// Sends `msg`, waiting at most `ms` milliseconds for room
/// (`Sender::send_timeout`); `true` when the queue took it.
#[verifier::external_body]
pub(crate) fn send_within(tx: &Sender<MessageWrapper>, msg: MessageWrapper, ms: u64) -> (r: (
    bool,
    Ghost<QueueCall>,
))
    ensures
        r.1@ == (QueueCall::SendWithin { sender: *tx, msg, ms }),
{
    let ghost record = QueueCall::SendWithin { sender: *tx, msg, ms };
    (tx.send_timeout(msg, Duration::from_millis(ms)).is_ok(), Ghost(record))
}

/// Takes the oldest message if there is one (`Receiver::try_recv`).
#[verifier::external_body]
pub(crate) fn take_now(rx: &Receiver<MessageWrapper>) -> (r: (Option<MessageWrapper>, Ghost<QueueCall>))
    ensures
        r.1@ == (QueueCall::TakeNow { receiver: *rx, got: r.0 }),
{
    let got = rx.try_recv().ok();
    let ghost record = QueueCall::TakeNow { receiver: *rx, got };
    (got, Ghost(record))
}

/// Waits for a message (`Receiver::recv`); `None` once the queue is empty
/// and every sender is gone.
#[verifier::external_body]
pub(crate) fn take_blocking(rx: &Receiver<MessageWrapper>) -> (r: (
    Option<MessageWrapper>,
    Ghost<QueueCall>,
))
    ensures
        r.1@ == (QueueCall::TakeBlocking { receiver: *rx, got: r.0 }),
{
    let got = rx.recv().ok();
    let ghost record = QueueCall::TakeBlocking { receiver: *rx, got };
    (got, Ghost(record))
}

/// Waits at most `ms` milliseconds for a message (`Receiver::recv_timeout`).
#[verifier::external_body]
pub(crate) fn take_within(rx: &Receiver<MessageWrapper>, ms: u64) -> (r: (
    Option<MessageWrapper>,
    Ghost<QueueCall>,
))
    ensures
        r.1@ == (QueueCall::TakeWithin { receiver: *rx, ms, got: r.0 }),
{
    let got = rx.recv_timeout(Duration::from_millis(ms)).ok();
    let ghost record = QueueCall::TakeWithin { receiver: *rx, ms, got };
    (got, Ghost(record))
}

/// Another handle on the same queue (`<Receiver as Clone>::clone`, which
/// copies the pointer to the shared channel): the same handle value.
#[verifier::external_body]
pub(crate) fn share_receiver<T>(rx: &Receiver<T>) -> (r: Receiver<T>)
    ensures
        r == *rx,
{
    rx.clone()
}

/// Another handle on the same queue (`<Sender as Clone>::clone`, which
/// copies the pointer to the shared channel): the same handle value.
#[verifier::external_body]
pub(crate) fn share_sender<T>(tx: &Sender<T>) -> (r: Sender<T>)
    ensures
        r == *tx,
{
    tx.clone()
}

} // verus!
