use vstd::prelude::*;
use crossbeam_channel::{Receiver, Sender};
use crate::channel::{
    offer, open_channel, queue_capacity, queue_is_full, send_blocking, send_within, share_receiver,
    share_sender, take_now, QueueCall,
};
use crate::config::{Delivery, TopicConfig, Wait};
use crate::ident::{
    fresh_subscriber_id, is_uuid_v4_text, lemma_spare_id_injective, lemma_spare_id_shape,
    lemma_usize_below_pow16, spare_id, spare_subscriber_id,
};
use crate::message::MessageWrapper;
use crate::receiver::ManualReceiver;
use crate::state::{
    after_create_publisher, after_subscribe, after_unsubscribe, carries_out, dispatch_of,
    empty_state, evicts_until_room, lemma_dispatch_of, lemma_same_dispatch, newest_sender, planned_dispatches, serves,
    state_wf, subscription_slot, without_subscriber, Dispatch, PubSubState, SubscriberState,
    Subscription, TopicState,
};
use crate::table::NameTable;

verus! {

/// One subscriber's queue as its topic slot holds it.
struct ChannelPair {
    sender: Sender<MessageWrapper>,
    receiver: Receiver<MessageWrapper>,
    config: TopicConfig,
    subscriber_id: String,
}

impl ChannelPair {
    spec fn view(self) -> Subscription {
        Subscription {
            subscriber_id: self.subscriber_id@,
            config: self.config,
            sender: self.sender,
            receiver: self.receiver,
        }
    }

    fn new(
        sender: Sender<MessageWrapper>,
        receiver: Receiver<MessageWrapper>,
        config: TopicConfig,
        subscriber_id: String,
    ) -> (p: Self)
        ensures
            p.view() == (Subscription { subscriber_id: subscriber_id@, config, sender, receiver }),
    {
        ChannelPair { sender, receiver, config, subscriber_id }
    }
}

spec fn pair_views(pairs: Seq<ChannelPair>) -> Seq<Subscription> {
    pairs.map_values(|p: ChannelPair| p.view())
}

/// `pairs` without the ones made under `id`, in their order.
fn drop_pairs_of(pairs: Vec<ChannelPair>, id: &String) -> (kept: Vec<ChannelPair>)
    ensures
        pair_views(kept@) == without_subscriber(pair_views(pairs@), id@),
{
    let ghost all = pairs@;
    let mut rest = pairs;
    let mut kept: Vec<ChannelPair> = Vec::new();
    proof {
        reveal(Seq::filter);
        assert(pair_views(all.subrange(0, 0)) =~= Seq::<Subscription>::empty());
        assert(rest@ =~= all.subrange(0, all.len() as int));
    }
    while rest.len() > 0
        invariant
            rest.len() <= all.len(),
            rest@ == all.subrange(all.len() - rest.len(), all.len() as int),
            pair_views(kept@) == without_subscriber(
                pair_views(all.subrange(0, all.len() - rest.len())),
                id@,
            ),
        decreases rest.len(),
    {
        let ghost done = all.len() - rest.len();
        let ghost before = kept@;
        let p = rest.remove(0);
        proof {
            assert(p == all[done]);
            assert(rest@ =~= all.subrange(done + 1, all.len() as int));
            let prefix = pair_views(all.subrange(0, done));
            let next = pair_views(all.subrange(0, done + 1));
            assert(next =~= prefix.push(p.view()));
            assert(next.drop_last() =~= prefix);
            reveal(Seq::filter);
        }
        if !(p.subscriber_id == *id) {
            kept.push(p);
            proof {
                assert(pair_views(kept@) =~= pair_views(before).push(p.view()));
            }
        } else {
            proof {
                assert(pair_views(kept@) =~= pair_views(before));
            }
        }
    }
    proof {
        assert(all.subrange(0, all.len() as int) =~= all);
    }
    kept
}

/// Takes the oldest messages out of a queue while it reports full, and
/// reports the calls it made. The queue is shared, so how often that is
/// needed cannot be known here; the count of takes only bounds the loop.
fn make_room(sender: &Sender<MessageWrapper>, receiver: &Receiver<MessageWrapper>) -> (calls: Ghost<
    Seq<QueueCall>,
>)
    ensures
        evicts_until_room(calls@, *sender, *receiver),
{
    let ghost mut calls: Seq<QueueCall> = Seq::empty();
    let mut attempts: usize = 0;
    loop
        invariant_except_break
            calls.len() == 2 * attempts,
            forall|i: int|
                0 <= i < calls.len() ==> if i % 2 == 0 {
                    #[trigger] calls[i] == QueueCall::CheckFull { sender: *sender, full: true }
                } else {
                    calls[i] matches QueueCall::TakeNow { receiver: r, got } && r == *receiver
                },
        invariant
            attempts <= usize::MAX,
        ensures
            evicts_until_room(calls, *sender, *receiver),
        decreases usize::MAX - attempts,
    {
        if attempts == usize::MAX {
            proof {
                assert forall|i: int| 0 <= i < calls.len() implies if i % 2 == 0 {
                    #[trigger] calls[i] == QueueCall::CheckFull { sender: *sender, full: i + 1 < calls.len() }
                } else {
                    calls[i] matches QueueCall::TakeNow { receiver: r, got } && r == *receiver
                } by {
                    if i % 2 == 0 {
                        assert(i + 1 < calls.len());
                    }
                }
            }
            break;
        }
        let (full, Ghost(check)) = queue_is_full(sender);
        let ghost before = calls;
        proof {
            calls = calls.push(check);
        }
        if !full {
            proof {
                let n = calls.len();
                assert(n % 2 == 1);
                assert forall|i: int| 0 <= i < n implies if i % 2 == 0 {
                    #[trigger] calls[i] == QueueCall::CheckFull { sender: *sender, full: i + 1 < n }
                } else {
                    calls[i] matches QueueCall::TakeNow { receiver: r, got } && r == *receiver
                } by {
                    if i < n - 1 {
                        assert(calls[i] == before[i]);
                    }
                }
            }
            break;
        }
        let (_, Ghost(take)) = take_now(receiver);
        proof {
            calls = calls.push(take);
        }
        attempts = attempts + 1;
    }
    Ghost(calls)
}

/// The patience of a publish that waits at most `max_wait_ms`
/// milliseconds, or without limit when that is `None`.
pub fn wait_for(max_wait_ms: Option<u64>) -> (w: Wait)
    ensures
        w == (match max_wait_ms {
            Some(ms) => Wait::Millis(ms),
            None => Wait::Forever,
        }),
{
    match max_wait_ms {
        Some(ms) => Wait::Millis(ms),
        None => Wait::Forever,
    }
}

/// Carries out the steps of a publish, in order, and reports the calls it
/// made: each step's queue gets `msg` as its rule says. What the queues then
/// hold is not stated: they are shared with other threads.
pub fn dispatch(plan: &Vec<Dispatch>, msg: MessageWrapper) -> (calls: Ghost<Seq<Seq<QueueCall>>>)
    ensures
        carries_out(plan@, msg, calls@),
{
    let ghost mut calls: Seq<Seq<QueueCall>> = Seq::empty();
    let mut i: usize = 0;
    while i < plan.len()
        invariant
            i <= plan.len(),
            calls.len() == i,
            forall|j: int| 0 <= j < i ==> #[trigger] serves(plan@[j], msg, calls[j]),
        decreases plan.len() - i,
    {
        let step = &plan[i];
        let tx = step.sender_handle();
        let ghost run: Seq<QueueCall>;
        match step.delivery() {
            Delivery::EvictOldest => {
                let Ghost(evicted) = make_room(tx, step.receiver_handle());
                let (_, Ghost(c)) = offer(tx, msg.clone());
                proof {
                    run = evicted.push(c);
                    assert(run.drop_last() =~= evicted);
                }
            },
            Delivery::Try => {
                let (_, Ghost(c)) = offer(tx, msg.clone());
                proof {
                    run = seq![c];
                }
            },
            Delivery::Block => {
                let (_, Ghost(c)) = send_blocking(tx, msg.clone());
                proof {
                    run = seq![c];
                }
            },
            Delivery::Timeout(ms) => {
                let (_, Ghost(c)) = send_within(tx, msg.clone(), ms);
                proof {
                    run = seq![c];
                }
            },
        }
        proof {
            assert(serves(plan@[i as int], msg, run));
            calls = calls.push(run);
        }
        i = i + 1;
    }
    Ghost(calls)
}

/// A topic slot.
struct TopicData {
    name: String,
    channel_pairs: Vec<ChannelPair>,
}

impl TopicData {
    spec fn view(self) -> TopicState {
        TopicState { name: self.name@, subscriptions: pair_views(self.channel_pairs@) }
    }
}

/// What the registry keeps of a subscriber. The receiving end is held only
/// so that the queue lives as long as the subscription.
#[allow(dead_code)]
struct SubscriberData {
    topic: String,
    receiver: Receiver<MessageWrapper>,
}

/// The registry: topic slots, the names that resolve to them, and the live
/// subscribers.
pub struct PubSub {
    topics: Vec<TopicData>,
    topic_map: NameTable<usize>,
    subscribers: NameTable<SubscriberData>,
}

impl View for PubSub {
    type V = PubSubState;

    closed spec fn view(&self) -> PubSubState {
        PubSubState {
            topics: self.topics@.map_values(|t: TopicData| t.view()),
            topic_map: self.topic_map.view(),
            subscribers: self.subscribers.view().map_values(
                |d: SubscriberData| SubscriberState { topic: d.topic@, receiver: d.receiver },
            ),
        }
    }
}

impl PubSub {
    /// The registry's own invariant: both name tables hold each name once,
    /// and the abstract state is well formed.
    pub closed spec fn wf(&self) -> bool {
        &&& self.topic_map.wf()
        &&& self.subscribers.wf()
        &&& state_wf(self@)
    }

    /// A well-formed registry has a well-formed abstract state, so the
    /// laws over `PubSubState` apply to it.
    pub proof fn lemma_wf(&self)
        requires
            self.wf(),
        ensures
            state_wf(self@),
    {
    }

    /// An empty registry.
    pub fn new() -> (p: Self)
        ensures
            p.wf(),
            p@ == empty_state(),
    {
        let p = PubSub { topics: Vec::new(), topic_map: NameTable::new(), subscribers: NameTable::new() };
        assert(p@.topics =~= Seq::<TopicState>::empty());
        assert(p@.subscribers =~= Map::<Seq<char>, SubscriberState>::empty());
        p
    }

    /// The topic id for `topic`: the slot the name already resolves to, or
    /// a new empty slot made for it.
    pub fn create_publisher(&mut self, topic: &str) -> (index: usize)
        requires
            old(self).wf(),
        ensures
            final(self).wf(),
            (final(self)@, index) == after_create_publisher(old(self)@, topic@),
    {
        let key = topic.to_owned();
        match self.topic_map.get(&key) {
            Some(index) => {
                return *index;
            },
            None => {},
        }
        let new_index = self.topics.len();
        let slot = TopicData { name: key.clone(), channel_pairs: Vec::new() };
        self.topics.push(slot);
        self.topic_map.insert(key, new_index);
        proof {
            let s = old(self)@;
            assert(pair_views(slot.channel_pairs@) =~= Seq::<Subscription>::empty());
            assert(self@.topics =~= s.topics.push(
                TopicState { name: topic@, subscriptions: Seq::empty() },
            ));
            assert(self@.topics.len() == self.topics.len());
            assert forall|k: Seq<char>| #[trigger] self@.topic_map.contains_key(k) implies
                self@.topic_map[k] < self@.topics.len()
                && self@.topics[self@.topic_map[k] as int].name == k by {
                if k != topic@ {
                    assert(s.topic_map.contains_key(k));
                }
            }
        }
        new_index
    }

    /// Records a subscription of `subscriber_id` to `topic` whose queue is
    /// the one behind `sender` and `receiver`, and returns the topic id it
    /// landed under. The slot is found or made as `create_publisher` does.
    fn record_subscription(
        &mut self,
        topic: &str,
        config: TopicConfig,
        subscriber_id: String,
        sender: Sender<MessageWrapper>,
        receiver: &Receiver<MessageWrapper>,
    ) -> (index: usize)
        requires
            old(self).wf(),
        ensures
            final(self).wf(),
            index == subscription_slot(old(self)@, topic@),
            final(self)@ == after_subscribe(
                old(self)@,
                topic@,
                config,
                subscriber_id@,
                sender,
                *receiver,
            ),
    {
        let index = self.create_publisher(topic);
        let ghost mid = self@;
        let ghost pre = self.topics@;
        proof {
            assert(self@.topics.len() == self.topics.len());
            if old(self)@.topic_map.contains_key(topic@) {
                assert(old(self)@.topic_map[topic@] < old(self)@.topics.len());
            }
            assert(index < self.topics.len());
        }
        let ghost tx = sender;
        let pair = ChannelPair::new(sender, share_receiver(receiver), config, subscriber_id.clone());
        self.topics[index].channel_pairs.push(pair);
        proof {
            let i = index as int;
            let sub = Subscription { subscriber_id: subscriber_id@, config, sender: tx, receiver: *receiver };
            assert(self.topics@[i].channel_pairs@ == pre[i].channel_pairs@.push(pair));
            assert(mid.topics[i] == pre[i].view());
            assert(forall|j: int| 0 <= j < pre.len() && j != i ==> self.topics@[j] == pre[j]);
            assert(pair_views(self.topics@[i].channel_pairs@) =~= mid.topics[i].subscriptions.push(sub));
            assert(self@.topics =~= mid.topics.update(
                i,
                TopicState { name: mid.topics[i].name, subscriptions: mid.topics[i].subscriptions.push(sub) },
            ));
        }
        let data = SubscriberData { topic: topic.to_owned(), receiver: share_receiver(receiver) };
        self.subscribers.insert(subscriber_id, data);
        proof {
            assert(self@.subscribers =~= mid.subscribers.insert(
                subscriber_id@,
                SubscriberState { topic: topic@, receiver: *receiver },
            ));
        }
        index
    }

    /// Ends the subscription `subscriber_id`: forgets the subscriber and
    /// drops every queue made under that id from the slot its topic name
    /// resolves to. Topic names keep their ids. An unknown id changes
    /// nothing.
    pub fn unsubscribe(&mut self, subscriber_id: &str)
        requires
            old(self).wf(),
        ensures
            final(self).wf(),
            final(self)@ == after_unsubscribe(old(self)@, subscriber_id@),
    {
        let id = subscriber_id.to_owned();
        let topic_opt = match self.subscribers.remove(&id) {
            Some(data) => Some(data.topic),
            None => None,
        };
        let ghost s = old(self)@;
        proof {
            assert(self@.subscribers =~= s.subscribers.remove(id@));
            assert(self@.topics == s.topics);
            assert(self@.topic_map == s.topic_map);
            match &topic_opt {
                Some(t) => {
                    assert(s.subscribers.contains_key(id@));
                    assert(s.subscribers[id@].topic == t@);
                },
                None => {
                    assert(!s.subscribers.contains_key(id@));
                    assert(s.subscribers.remove(id@) =~= s.subscribers);
                },
            }
        }
        if let Some(topic) = topic_opt {
            let index_opt = match self.topic_map.get(&topic) {
                Some(index) => Some(*index),
                None => None,
            };
            if let Some(index) = index_opt {
                if index < self.topics.len() {
                    let ghost pre = self.topics@;
                    let TopicData { name, channel_pairs } = self.topics.remove(index);
                    let kept = drop_pairs_of(channel_pairs, &id);
                    let slot = TopicData { name, channel_pairs: kept };
                    self.topics.insert(index, slot);
                    proof {
                        let i = index as int;
                        assert(self.topics@ =~= pre.update(i, slot));
                        assert(self@.topics =~= s.topics.update(
                            i,
                            TopicState {
                                name: s.topics[i].name,
                                subscriptions: without_subscriber(s.topics[i].subscriptions, id@),
                            },
                        ));
                    }
                    proof {
                        let i = index as int;
                        assert forall|k: Seq<char>| #[trigger] self@.topic_map.contains_key(k) implies
                            self@.topic_map[k] < self@.topics.len()
                            && self@.topics[self@.topic_map[k] as int].name == k by {
                            assert(s.topic_map.contains_key(k));
                        }
                    }
                }
            }
        }
    }

    /// Subscribes `subscriber_id` to `topic`: opens a queue whose capacity
    /// is the configured depth, records both of its ends on the topic's slot
    /// (found or made as `create_publisher` does) and the receiving end
    /// under the id, and hands back the topic id and that very receiving
    /// end. The sender recorded is the queue's own, which no one else holds.
    pub fn register_subscriber(
        &mut self,
        topic: &str,
        config: TopicConfig,
        subscriber_id: String,
    ) -> (r: (usize, Receiver<MessageWrapper>))
        requires
            old(self).wf(),
            config.depth() * 32 <= isize::MAX,
        ensures
            final(self).wf(),
            r.0 == subscription_slot(old(self)@, topic@),
            final(self)@ == after_subscribe(
                old(self)@,
                topic@,
                config,
                subscriber_id@,
                newest_sender(final(self)@, topic@),
                r.1,
            ),
            queue_capacity(r.1) == config.depth(),
    {
        let (sender, receiver) = open_channel(config.queue_depth());
        let ghost tx = sender;
        let index = self.record_subscription(topic, config, subscriber_id, sender, &receiver);
        proof {
            let s = old(self)@;
            let (s1, i) = after_create_publisher(s, topic@);
            assert(s1.topic_map.contains_key(topic@) && s1.topic_map[topic@] == i) by {
                if !s.topic_map.contains_key(topic@) {
                    assert(s1.topic_map[topic@] == i);
                }
            }
            assert(self@.topic_map == s1.topic_map);
            assert(newest_sender(self@, topic@) == tx);
        }
        (index, receiver)
    }

    /// Subscribes a fresh id to `topic`, as `register_subscriber` does, and
    /// hands back the id and the queue's receiving end. The id is a random
    /// version-4 UUID; in the unlikely case that it is already a live
    /// subscriber's, a spare UUID-shaped id that is free takes its place, so
    /// a new subscription never takes over another's record.
    pub fn open_subscription(&mut self, topic: &str, config: TopicConfig) -> (r: (
        String,
        Receiver<MessageWrapper>,
    ))
        requires
            old(self).wf(),
            config.depth() * 32 <= isize::MAX,
        ensures
            final(self).wf(),
            final(self)@ == after_subscribe(
                old(self)@,
                topic@,
                config,
                r.0@,
                newest_sender(final(self)@, topic@),
                r.1,
            ),
            queue_capacity(r.1) == config.depth(),
            is_uuid_v4_text(r.0@),
            !old(self)@.subscribers.contains_key(r.0@),
    {
        let drawn = fresh_subscriber_id();
        let subscriber_id = if self.subscribers.get(&drawn).is_none() {
            drawn
        } else {
            self.unused_subscriber_id()
        };
        let (_, receiver) = self.register_subscriber(topic, config, subscriber_id.clone());
        (subscriber_id, receiver)
    }

    /// A UUID-shaped id no live subscriber has: the first of the spare ids
    /// numbered `0, 1, ...` that is free. There are more spare ids than live
    /// subscribers, so one is.
    fn unused_subscriber_id(&self) -> (id: String)
        requires
            self.wf(),
        ensures
            !self@.subscribers.contains_key(id@),
            is_uuid_v4_text(id@),
    {
        let n = self.subscribers.len();
        let mut k: usize = 0;
        while k < n
            invariant
                k <= n,
                n == self.subscribers.size(),
                self.subscribers.wf(),
                forall|j: int|
                    0 <= j < k ==> self.subscribers.view().contains_key(#[trigger] spare_id(j as nat)),
            decreases n - k,
        {
            let candidate = spare_subscriber_id(k);
            if self.subscribers.get(&candidate).is_none() {
                proof {
                    lemma_spare_id_shape(k as nat);
                }
                return candidate;
            }
            k = k + 1;
        }
        let candidate = spare_subscriber_id(n);
        proof {
            lemma_spare_id_shape(n as nat);
            lemma_usize_below_pow16(n);
            if self.subscribers.view().contains_key(candidate@) {
                let names = |j: int| spare_id(j as nat);
                assert forall|a: int, b: int| 0 <= a < b <= self.subscribers.size() implies
                    #[trigger] names(a) != #[trigger] names(b) by {
                    if names(a) == names(b) {
                        lemma_spare_id_injective(a as nat, b as nat);
                    }
                }
                self.subscribers.lemma_cannot_hold_all(names);
                let k = choose|k: int|
                    0 <= k <= self.subscribers.size() && !self.subscribers.view().contains_key(
                        #[trigger] names(k),
                    );
                if k < n {
                    assert(self.subscribers.view().contains_key(spare_id(k as nat)));
                }
                assert(false);
            }
        }
        candidate
    }

    /// Subscribes to `topic` for polling: the returned receiver hands out
    /// the messages published to the topic as `T`.
    pub fn subscribe_manual<T: Send + Sync + Clone + 'static>(
        &mut self,
        topic: &str,
        config: TopicConfig,
    ) -> (r: ManualReceiver<T>)
        requires
            old(self).wf(),
            config.depth() * 32 <= isize::MAX,
        ensures
            final(self).wf(),
            final(self)@ == after_subscribe(
                old(self)@,
                topic@,
                config,
                r.id(),
                newest_sender(final(self)@, topic@),
                r.queue(),
            ),
            queue_capacity(r.queue()) == config.depth(),
            is_uuid_v4_text(r.id()),
            !old(self)@.subscribers.contains_key(r.id()),
    {
        let (subscriber_id, receiver) = self.open_subscription(topic, config);
        ManualReceiver::from_parts(subscriber_id, receiver)
    }

    /// The steps of a publish to topic id `topic_id` with patience `wait`:
    /// for each subscription of that slot, in order, its queue and what to do
    /// with it; none for an id that names no slot.
    pub fn publish_plan(&self, topic_id: usize, wait: Wait) -> (plan: Vec<Dispatch>)
        ensures
            plan@ == planned_dispatches(self@, topic_id, wait),
    {
        let mut plan: Vec<Dispatch> = Vec::new();
        if topic_id >= self.topics.len() {
            proof {
                assert(self@.topics.len() == self.topics.len());
                assert(plan@ =~= planned_dispatches(self@, topic_id, wait));
            }
            return plan;
        }
        let pairs = &self.topics[topic_id].channel_pairs;
        let ghost subs = self@.topics[topic_id as int].subscriptions;
        proof {
            assert(subs == pair_views(pairs@));
        }
        let mut i: usize = 0;
        while i < pairs.len()
            invariant
                i <= pairs.len(),
                subs == pair_views(pairs@),
                plan@ =~= subs.subrange(0, i as int).map_values(
                    |sub: Subscription| dispatch_of(sub, wait),
                ),
            decreases pairs.len() - i,
        {
            let pair = &pairs[i];
            let step = Dispatch::new(
                share_sender(&pair.sender),
                share_receiver(&pair.receiver),
                pair.config.delivery(wait),
            );
            plan.push(step);
            proof {
                assert(subs[i as int] == pair.view());
                lemma_dispatch_of(subs[i as int], wait);
                lemma_same_dispatch(step, dispatch_of(subs[i as int], wait));
                assert(subs.subrange(0, i + 1) =~= subs.subrange(0, i as int).push(subs[i as int]));
            }
            i = i + 1;
        }
        proof {
            assert(subs.subrange(0, i as int) =~= subs);
            assert(self@.topics.len() == self.topics.len());
        }
        plan
    }

    /// Offers `message` to every queue of topic `topic_id` without waiting,
    /// carrying out `publish_plan(topic_id, Wait::Immediate)`: an
    /// overwriting queue first drops its oldest messages while full, any
    /// other full queue does not get it. An unknown topic id does nothing.
    /// Reports the wrapped message and the calls made.
    pub fn try_publish<T: Send + Sync + Clone + 'static>(&self, topic_id: usize, message: T) -> (r:
        Ghost<(MessageWrapper, Seq<Seq<QueueCall>>)>)
        ensures
            carries_out(planned_dispatches(self@, topic_id, Wait::Immediate), r@.0, r@.1),
    {
        let plan = self.publish_plan(topic_id, Wait::Immediate);
        let msg = MessageWrapper::new(message);
        let ghost m = msg;
        let Ghost(calls) = dispatch(&plan, msg);
        Ghost((m, calls))
    }

    /// Publishes `message` to every queue of topic `topic_id`, waiting as
    /// long as it takes for room in queues that do not overwrite: it
    /// carries out `publish_plan(topic_id, Wait::Forever)`.
    pub fn publish<T: Send + Sync + Clone + 'static>(&self, topic_id: usize, message: T) -> (r: Ghost<
        (MessageWrapper, Seq<Seq<QueueCall>>),
    >)
        ensures
            carries_out(planned_dispatches(self@, topic_id, Wait::Forever), r@.0, r@.1),
    {
        self.publish_with_timeout(topic_id, message, None)
    }

    /// Publishes `message` to every queue of topic `topic_id`, carrying out
    /// `publish_plan(topic_id, wait_for(max_wait_ms))`: a queue that does
    /// not overwrite is waited on for at most `max_wait_ms` milliseconds
    /// each, or without limit when that is `None`.
    pub fn publish_with_timeout<T: Send + Sync + Clone + 'static>(
        &self,
        topic_id: usize,
        message: T,
        max_wait_ms: Option<u64>,
    ) -> (r: Ghost<(MessageWrapper, Seq<Seq<QueueCall>>)>)
        ensures
            carries_out(
                planned_dispatches(
                    self@,
                    topic_id,
                    match max_wait_ms {
                        Some(ms) => Wait::Millis(ms),
                        None => Wait::Forever,
                    },
                ),
                r@.0,
                r@.1,
            ),
    {
        let plan = self.publish_plan(topic_id, wait_for(max_wait_ms));
        let msg = MessageWrapper::new(message);
        let ghost m = msg;
        let Ghost(calls) = dispatch(&plan, msg);
        Ghost((m, calls))
    }
}

} // verus!
