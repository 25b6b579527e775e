use vstd::prelude::*;
use crossbeam_channel::{Receiver, Sender};
use crate::channel::QueueCall;
use crate::config::{delivery_for, Delivery, TopicConfig, Wait};
use crate::message::MessageWrapper;

verus! {

/// One subscription as the registry records it on its topic: who made it,
/// how its queue behaves, and the two ends of that queue.
pub struct Subscription {
    pub subscriber_id: Seq<char>,
    pub config: TopicConfig,
    pub sender: Sender<MessageWrapper>,
    pub receiver: Receiver<MessageWrapper>,
}

/// What the registry keeps of a live subscriber: the topic name it was made
/// for and the receiving end of its queue.
pub struct SubscriberState {
    pub topic: Seq<char>,
    pub receiver: Receiver<MessageWrapper>,
}

/// One step of a publish: the queue to hand the message to (both ends of
/// one subscription's queue), and how. Only the registry makes steps, so
/// the two ends always belong together.
pub struct Dispatch {
    sender: Sender<MessageWrapper>,
    receiver: Receiver<MessageWrapper>,
    delivery: Delivery,
}

impl Dispatch {
    pub closed spec fn sender(self) -> Sender<MessageWrapper> {
        self.sender
    }

    pub closed spec fn receiver(self) -> Receiver<MessageWrapper> {
        self.receiver
    }

    pub closed spec fn rule(self) -> Delivery {
        self.delivery
    }

    /// The step for one subscription.
    pub(crate) fn new(
        sender: Sender<MessageWrapper>,
        receiver: Receiver<MessageWrapper>,
        delivery: Delivery,
    ) -> (d: Self)
        ensures
            d.sender() == sender,
            d.receiver() == receiver,
            d.rule() == delivery,
    {
        Dispatch { sender, receiver, delivery }
    }

    /// How this step treats its queue.
    pub fn delivery(&self) -> (d: Delivery)
        ensures
            d == self.rule(),
    {
        self.delivery
    }

    pub(crate) fn sender_handle(&self) -> (tx: &Sender<MessageWrapper>)
        ensures
            *tx == self.sender(),
    {
        &self.sender
    }

    pub(crate) fn receiver_handle(&self) -> (rx: &Receiver<MessageWrapper>)
        ensures
            *rx == self.receiver(),
    {
        &self.receiver
    }
}

/// One topic slot: its name and the subscriptions that publishing to it
/// reaches, oldest first.
pub struct TopicState {
    pub name: Seq<char>,
    pub subscriptions: Seq<Subscription>,
}

/// The registry's abstract state.
///
/// - `topics`: the topic slots; a slot's position is the topic id that
///   publishers use. Slots are only ever appended.
/// - `topic_map`: which slot a topic name currently resolves to.
/// - `subscribers`: what is kept of each live subscriber id.
pub struct PubSubState {
    pub topics: Seq<TopicState>,
    pub topic_map: Map<Seq<char>, usize>,
    pub subscribers: Map<Seq<char>, SubscriberState>,
}

/// Every name in `topic_map` resolves to an existing slot of that name, and
/// every slot has a topic id.
pub open spec fn state_wf(s: PubSubState) -> bool {
    &&& s.topics.len() <= usize::MAX
    &&& forall|k: Seq<char>|
        #[trigger] s.topic_map.contains_key(k) ==> s.topic_map[k] < s.topics.len()
            && s.topics[s.topic_map[k] as int].name == k
}

/// The state with no topics and no subscribers.
pub open spec fn empty_state() -> PubSubState {
    PubSubState {
        topics: Seq::empty(),
        topic_map: Map::empty(),
        subscribers: Map::empty(),
    }
}

/// What `create_publisher(topic)` leaves and returns: the slot the name
/// already resolves to, or a new empty slot appended for it.
pub open spec fn after_create_publisher(s: PubSubState, topic: Seq<char>) -> (PubSubState, usize) {
    if s.topic_map.contains_key(topic) {
        (s, s.topic_map[topic])
    } else {
        let i = s.topics.len() as usize;
        (
            PubSubState {
                topics: s.topics.push(TopicState { name: topic, subscriptions: Seq::empty() }),
                topic_map: s.topic_map.insert(topic, i),
                subscribers: s.subscribers,
            },
            i,
        )
    }
}

/// The slot a subscription to `topic` lands in.
pub open spec fn subscription_slot(s: PubSubState, topic: Seq<char>) -> usize {
    after_create_publisher(s, topic).1
}

/// What subscribing `id` to `topic` with `config`, over the queue with ends
/// `sender` and `receiver`, leaves: the topic's slot (found or made as
/// `create_publisher` does) gains the subscription at its end, and `id` is
/// recorded as subscribed to `topic` with that receiver, replacing any
/// earlier record of the same id.
pub open spec fn after_subscribe(
    s: PubSubState,
    topic: Seq<char>,
    config: TopicConfig,
    id: Seq<char>,
    sender: Sender<MessageWrapper>,
    receiver: Receiver<MessageWrapper>,
) -> PubSubState {
    let (s1, i) = after_create_publisher(s, topic);
    let slot = s1.topics[i as int];
    PubSubState {
        topics: s1.topics.update(
            i as int,
            TopicState {
                name: slot.name,
                subscriptions: slot.subscriptions.push(
                    Subscription { subscriber_id: id, config, sender, receiver },
                ),
            },
        ),
        topic_map: s1.topic_map,
        subscribers: s1.subscribers.insert(id, SubscriberState { topic, receiver }),
    }
}

/// The sender that the newest subscription of `topic`'s slot holds.
pub open spec fn newest_sender(s: PubSubState, topic: Seq<char>) -> Sender<MessageWrapper> {
    s.topics[s.topic_map[topic] as int].subscriptions.last().sender
}

/// The subscriptions that remain once every one made under `id` is dropped.
pub open spec fn without_subscriber(subs: Seq<Subscription>, id: Seq<char>) -> Seq<Subscription> {
    subs.filter(|sub: Subscription| sub.subscriber_id != id)
}

/// What unsubscribing `id` leaves. An unknown id changes nothing. Otherwise
/// the id's record goes, and the slot its topic name resolves to loses every
/// subscription made under that id. Names and topic ids are untouched: a
/// topic keeps its id even when its last subscriber leaves.
pub open spec fn after_unsubscribe(s: PubSubState, id: Seq<char>) -> PubSubState {
    if !s.subscribers.contains_key(id) {
        s
    } else {
        let topic = s.subscribers[id].topic;
        let s1 = PubSubState {
            topics: s.topics,
            topic_map: s.topic_map,
            subscribers: s.subscribers.remove(id),
        };
        if !s.topic_map.contains_key(topic) || s.topic_map[topic] >= s.topics.len() {
            s1
        } else {
            let i = s.topic_map[topic] as int;
            let remaining = without_subscriber(s.topics[i].subscriptions, id);
            PubSubState {
                topics: s.topics.update(
                    i,
                    TopicState { name: s.topics[i].name, subscriptions: remaining },
                ),
                topic_map: s.topic_map,
                subscribers: s1.subscribers,
            }
        }
    }
}

/// The step a publish with patience `wait` takes for one subscription.
pub closed spec fn dispatch_of(sub: Subscription, wait: Wait) -> Dispatch {
    Dispatch { sender: sub.sender, receiver: sub.receiver, delivery: delivery_for(sub.config, wait) }
}

/// What the step for a subscription holds: that subscription's queue, and
/// its queue-full rule for `wait`.
pub proof fn lemma_dispatch_of(sub: Subscription, wait: Wait)
    ensures
        dispatch_of(sub, wait).sender() == sub.sender,
        dispatch_of(sub, wait).receiver() == sub.receiver,
        dispatch_of(sub, wait).rule() == delivery_for(sub.config, wait),
{
}

/// Two steps with the same queue and rule are the same step.
pub proof fn lemma_same_dispatch(a: Dispatch, b: Dispatch)
    requires
        a.sender() == b.sender(),
        a.receiver() == b.receiver(),
        a.rule() == b.rule(),
    ensures
        a == b,
{
}

/// Whether `calls` is an eviction on the queue with ends `tx` and `rx`: it
/// checks whether the queue is full and, while it is, takes the oldest
/// message and checks again; it stops at the first check that finds room
/// (or, only after `usize::MAX` takes, on a take).
pub open spec fn evicts_until_room(
    calls: Seq<QueueCall>,
    tx: Sender<MessageWrapper>,
    rx: Receiver<MessageWrapper>,
) -> bool {
    &&& calls.len() >= 1
    &&& calls.len() % 2 == 0 ==> calls.len() == 2 * usize::MAX
    &&& forall|i: int|
        0 <= i < calls.len() ==> if i % 2 == 0 {
            #[trigger] calls[i] == QueueCall::CheckFull { sender: tx, full: i + 1 < calls.len() }
        } else {
            calls[i] matches QueueCall::TakeNow { receiver, got } && receiver == rx
        }
}

/// Whether `calls` carries out `step` for message `msg`: an eviction
/// followed by an offer, a single offer, a single blocking send, or a
/// single send with the step's wait, as the step's rule says, always on
/// the step's own queue.
pub open spec fn serves(step: Dispatch, msg: MessageWrapper, calls: Seq<QueueCall>) -> bool {
    match step.rule() {
        Delivery::EvictOldest => {
            &&& calls.len() >= 1
            &&& calls.last() == QueueCall::Offer { sender: step.sender(), msg }
            &&& evicts_until_room(calls.drop_last(), step.sender(), step.receiver())
        },
        Delivery::Try => calls == seq![QueueCall::Offer { sender: step.sender(), msg }],
        Delivery::Block => calls == seq![QueueCall::Send { sender: step.sender(), msg }],
        Delivery::Timeout(ms) => calls == seq![
            QueueCall::SendWithin { sender: step.sender(), msg, ms },
        ],
    }
}

/// Whether `calls` carries out `plan` for `msg`: one run of calls per step,
/// in order, each serving its step.
pub open spec fn carries_out(plan: Seq<Dispatch>, msg: MessageWrapper, calls: Seq<Seq<QueueCall>>) -> bool {
    &&& calls.len() == plan.len()
    &&& forall|i: int| 0 <= i < plan.len() ==> #[trigger] serves(plan[i], msg, calls[i])
}

/// What a publish to topic id `topic_id` with patience `wait` does: one step
/// for each subscription of that slot, in subscription order, each by its
/// own queue-full rule; nothing for an id that names no slot.
pub open spec fn planned_dispatches(s: PubSubState, topic_id: usize, wait: Wait) -> Seq<Dispatch> {
    if topic_id < s.topics.len() {
        s.topics[topic_id as int].subscriptions.map_values(|sub: Subscription| dispatch_of(sub, wait))
    } else {
        Seq::empty()
    }
}

} // verus!
