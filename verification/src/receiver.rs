use vstd::prelude::*;
use core::marker::PhantomData;
use crossbeam_channel::Receiver;
use crate::channel::{share_receiver, take_blocking, take_now, take_within, QueueCall};
use crate::message::MessageWrapper;
use crate::pubsub::PubSub;
use crate::state::after_unsubscribe;

verus! {

/// A subscriber's end of its queue, read by polling; messages are handed out
/// as `T`.
pub struct ManualReceiver<T> {
    receiver: Receiver<MessageWrapper>,
    subscriber_id: String,
    _marker: PhantomData<T>,
}

impl<T> Clone for ManualReceiver<T> {
    /// Another handle on the same queue, under the same subscriber id.
    fn clone(&self) -> (r: Self)
        ensures
            r.id() == self.id(),
            r.queue() == self.queue(),
    {
        ManualReceiver {
            receiver: share_receiver(&self.receiver),
            subscriber_id: self.subscriber_id.clone(),
            _marker: PhantomData,
        }
    }
}

/// The message a take gave back, if any.
pub open spec fn taken(call: QueueCall) -> Option<MessageWrapper> {
    match call {
        QueueCall::TakeNow { got, .. } => got,
        QueueCall::TakeBlocking { got, .. } => got,
        QueueCall::TakeWithin { got, .. } => got,
        _ => None,
    }
}

/// Serves one message of a callback subscription: waits for the next
/// message on `receiver` (`QueueCall::TakeBlocking`) and, when its payload
/// is a `T`, hands it to `callback`. Returns whether a message came (`false`
/// once the queue is empty and has no sender left), and the take made.
pub fn serve_next<T: 'static, F: Fn(&T)>(receiver: &Receiver<MessageWrapper>, callback: &F) -> (r: (
    bool,
    Ghost<QueueCall>,
))
    requires
        forall|x: &T| #[trigger] callback.requires((x,)),
    ensures
        r.1@ == (QueueCall::TakeBlocking { receiver: *receiver, got: taken(r.1@) }),
        r.0 == (taken(r.1@) is Some),
{
    let (got, Ghost(call)) = take_blocking(receiver);
    match got {
        Some(msg) => {
            match msg.downcast::<T>() {
                Some(data) => callback(data),
                None => {},
            }
            (true, Ghost(call))
        },
        None => (false, Ghost(call)),
    }
}

/// What a subscriber of `T` is handed for a taken message, given what
/// `MessageWrapper::downcast` found in it: a copy of the payload when it is
/// a `T`, and nothing otherwise.
fn open_as<T: Clone + 'static>(found: Option<&T>) -> (r: Option<T>)
    ensures
        match (found, r) {
            (Some(data), Some(copy)) => cloned::<T>(*data, copy),
            (None, None) => true,
            _ => false,
        },
{
    match found {
        Some(data) => Some(data.clone()),
        None => None,
    }
}

impl<T> ManualReceiver<T> {
    /// The subscriber id this receiver was made under.
    pub closed spec fn id(&self) -> Seq<char> {
        self.subscriber_id@
    }

    /// The receiving end of the queue this receiver reads.
    pub closed spec fn queue(&self) -> Receiver<MessageWrapper> {
        self.receiver
    }

    pub(crate) fn from_parts(subscriber_id: String, receiver: Receiver<MessageWrapper>) -> (r: Self)
        ensures
            r.id() == subscriber_id@,
            r.queue() == receiver,
    {
        ManualReceiver { receiver, subscriber_id, _marker: PhantomData }
    }

    /// The subscriber id this receiver was made under.
    pub fn subscriber_id(&self) -> (id: &String)
        ensures
            id@ == self.id(),
    {
        &self.subscriber_id
    }

    /// Ends this subscription in `pubsub`, as `PubSub::unsubscribe` does for
    /// its id.
    pub fn unsubscribe(self, pubsub: &mut PubSub)
        requires
            old(pubsub).wf(),
        ensures
            final(pubsub).wf(),
            final(pubsub)@ == after_unsubscribe(old(pubsub)@, self.id()),
    {
        pubsub.unsubscribe(self.subscriber_id.as_str());
    }
}

impl<T: Clone + 'static> ManualReceiver<T> {
    /// Takes the oldest queued message without waiting
    /// (`QueueCall::TakeNow` on this receiver's queue); `None` when the
    /// queue had none, or the message is not a `T`. Reports the take made.
    pub fn try_recv(&self) -> (r: (Option<T>, Ghost<QueueCall>))
        ensures
            r.1@ == (QueueCall::TakeNow { receiver: self.queue(), got: taken(r.1@) }),
            taken(r.1@) is None ==> r.0 is None,
    {
        let (got, Ghost(call)) = take_now(&self.receiver);
        let value = match got {
            Some(msg) => open_as(msg.downcast::<T>()),
            None => None,
        };
        (value, Ghost(call))
    }

    /// Waits for a message without limit (`QueueCall::TakeBlocking` on this
    /// receiver's queue); `None` when the message is not a `T`, or when the
    /// queue is empty and has no sender left. Reports the take made.
    pub fn recv(&self) -> (r: (Option<T>, Ghost<QueueCall>))
        ensures
            r.1@ == (QueueCall::TakeBlocking { receiver: self.queue(), got: taken(r.1@) }),
            taken(r.1@) is None ==> r.0 is None,
    {
        self.recv_timeout(None)
    }

    /// Waits for a message, at most `timeout_ms` milliseconds when that is
    /// given (`QueueCall::TakeWithin`) and without limit otherwise
    /// (`QueueCall::TakeBlocking`), on this receiver's queue; `None` when
    /// none came in time or the message is not a `T`. Reports the take made.
    pub fn recv_timeout(&self, timeout_ms: Option<u64>) -> (r: (Option<T>, Ghost<QueueCall>))
        ensures
            r.1@ == (match timeout_ms {
                Some(ms) => QueueCall::TakeWithin { receiver: self.queue(), ms, got: taken(r.1@) },
                None => QueueCall::TakeBlocking { receiver: self.queue(), got: taken(r.1@) },
            }),
            taken(r.1@) is None ==> r.0 is None,
    {
        let (got, Ghost(call)) = match timeout_ms {
            Some(ms) => take_within(&self.receiver, ms),
            None => take_blocking(&self.receiver),
        };
        let value = match got {
            Some(msg) => open_as(msg.downcast::<T>()),
            None => None,
        };
        (value, Ghost(call))
    }
}

} // verus!
