use vstd::prelude::*;
use crossbeam_channel::{Receiver, Sender};
use crate::config::{delivery_for, Delivery, TopicConfig, Wait};
use crate::message::MessageWrapper;
use crate::state::{
    after_create_publisher, after_subscribe, after_unsubscribe, dispatch_of, lemma_dispatch_of,
    planned_dispatches,
    state_wf, subscription_slot, without_subscriber, Dispatch, PubSubState, SubscriberState,
    Subscription,
};

verus! {

/// Asking again for a publisher of the same topic gives the same topic id
/// and changes nothing.
pub proof fn law_create_publisher_idempotent(s: PubSubState, topic: Seq<char>)
    requires
        state_wf(s),
    ensures
        ({
            let (s1, i) = after_create_publisher(s, topic);
            after_create_publisher(s1, topic) == (s1, i)
        }),
{
}

/// The topic id `create_publisher` returns names a slot of that topic, the
/// name resolves to it, and nothing that was there before changes.
pub proof fn law_create_publisher_resolves(s: PubSubState, topic: Seq<char>)
    requires
        state_wf(s),
        s.topic_map.contains_key(topic) || s.topics.len() < usize::MAX,
    ensures
        ({
            let (s1, i) = after_create_publisher(s, topic);
            &&& state_wf(s1)
            &&& i < s1.topics.len()
            &&& s1.topics[i as int].name == topic
            &&& s1.topic_map.contains_key(topic)
            &&& s1.topic_map[topic] == i
            &&& s1.topics.len() >= s.topics.len()
            &&& forall|j: int| 0 <= j < s.topics.len() ==> s1.topics[j] == s.topics[j]
            &&& forall|k: Seq<char>| #[trigger] s.topic_map.contains_key(k) ==>
                    s1.topic_map.contains_key(k) && s1.topic_map[k] == s.topic_map[k]
            &&& s1.subscribers == s.subscribers
        }),
{
    let (s1, i) = after_create_publisher(s, topic);
    assert forall|k: Seq<char>| #[trigger] s1.topic_map.contains_key(k) implies
        s1.topic_map[k] < s1.topics.len() && s1.topics[s1.topic_map[k] as int].name == k by {
        if k != topic {
            assert(s.topic_map.contains_key(k));
        }
    }
}

/// Different topics get different topic ids.
pub proof fn law_distinct_topics_distinct_ids(s: PubSubState, t1: Seq<char>, t2: Seq<char>)
    requires
        state_wf(s),
        s.topics.len() + 1 < usize::MAX,
        t1 != t2,
    ensures
        ({
            let (s1, i1) = after_create_publisher(s, t1);
            let (s2, i2) = after_create_publisher(s1, t2);
            i1 != i2
        }),
{
    law_create_publisher_resolves(s, t1);
    let (s1, i1) = after_create_publisher(s, t1);
    law_create_publisher_resolves(s1, t2);
}

/// A subscription lands in the slot that the topic's publishers use,
/// whether they were created before it or after it: the slot ends with the
/// new subscription, keeps the ones it had, and the id is recorded under
/// the topic.
pub proof fn law_subscription_reaches_publishers(
    s: PubSubState,
    topic: Seq<char>,
    config: TopicConfig,
    id: Seq<char>,
    tx: Sender<MessageWrapper>,
    rx: Receiver<MessageWrapper>,
)
    requires
        state_wf(s),
        s.topic_map.contains_key(topic) || s.topics.len() < usize::MAX,
    ensures
        ({
            let (s0, p) = after_create_publisher(s, topic);
            let s1 = after_subscribe(s, topic, config, id, tx, rx);
            let i = subscription_slot(s, topic);
            &&& state_wf(s1)
            &&& i == p
            &&& after_create_publisher(s1, topic) == (s1, i)
            &&& s1.topics.len() == s0.topics.len()
            &&& s1.topics[i as int].name == topic
            &&& s1.topics[i as int].subscriptions == s0.topics[i as int].subscriptions.push(
                Subscription { subscriber_id: id, config, sender: tx, receiver: rx },
            )
            &&& forall|j: int| 0 <= j < s0.topics.len() && j != i ==> s1.topics[j] == s0.topics[j]
            &&& s1.subscribers == s0.subscribers.insert(id, SubscriberState { topic, receiver: rx })
            &&& s1.topic_map == s0.topic_map
        }),
{
    law_create_publisher_resolves(s, topic);
    let (s0, p) = after_create_publisher(s, topic);
    let s1 = after_subscribe(s, topic, config, id, tx, rx);
    assert forall|k: Seq<char>| #[trigger] s1.topic_map.contains_key(k) implies
        s1.topic_map[k] < s1.topics.len() && s1.topics[s1.topic_map[k] as int].name == k by {
        assert(s0.topic_map.contains_key(k));
    }
}

/// Unsubscribing keeps the state well formed, never removes or renames a
/// slot (topic ids handed out stay in range), leaves every topic name with
/// its id, and touches no subscription of another id.
pub proof fn law_unsubscribe_keeps_others(s: PubSubState, id: Seq<char>)
    requires
        state_wf(s),
    ensures
        ({
            let s1 = after_unsubscribe(s, id);
            &&& state_wf(s1)
            &&& s1.topics.len() == s.topics.len()
            &&& forall|j: int| 0 <= j < s.topics.len() ==> #[trigger] s1.topics[j].name
                == s.topics[j].name
            &&& forall|j: int| 0 <= j < s.topics.len() ==> #[trigger] s1.topics[j].subscriptions
                == s.topics[j].subscriptions || s1.topics[j].subscriptions == without_subscriber(
                s.topics[j].subscriptions,
                id,
            )
            &&& s1.subscribers == s.subscribers.remove(id)
            &&& s1.topic_map == s.topic_map
        }),
{
    let s1 = after_unsubscribe(s, id);
    if s.subscribers.contains_key(id) {
        assert forall|k: Seq<char>| #[trigger] s1.topic_map.contains_key(k) implies
            s1.topic_map[k] < s1.topics.len() && s1.topics[s1.topic_map[k] as int].name == k by {
            assert(s.topic_map.contains_key(k));
        }
    } else {
        assert(s.subscribers.remove(id) =~= s.subscribers);
    }
}

/// Unsubscribing an id nobody subscribed under changes nothing.
pub proof fn law_unsubscribe_unknown_is_noop(s: PubSubState, id: Seq<char>)
    requires
        !s.subscribers.contains_key(id),
    ensures
        after_unsubscribe(s, id) == s,
{
}

/// Subscribing and then unsubscribing the same id leaves the id unknown,
/// leaves its topic's slot with exactly the other subscriptions it had (with
/// their queues), in their order, and every other slot as it was; a later
/// publish to the slot then follows exactly those subscriptions.
pub proof fn law_unsubscribe_undoes_subscribe(
    s: PubSubState,
    topic: Seq<char>,
    config: TopicConfig,
    id: Seq<char>,
    tx: Sender<MessageWrapper>,
    rx: Receiver<MessageWrapper>,
    wait: Wait,
)
    requires
        state_wf(s),
        s.topic_map.contains_key(topic) || s.topics.len() < usize::MAX,
    ensures
        ({
            let (s0, i) = after_create_publisher(s, topic);
            let s2 = after_unsubscribe(after_subscribe(s, topic, config, id, tx, rx), id);
            let kept = without_subscriber(s0.topics[i as int].subscriptions, id);
            &&& state_wf(s2)
            &&& !s2.subscribers.contains_key(id)
            &&& s2.subscribers == s0.subscribers.remove(id)
            &&& s2.topics.len() == s0.topics.len()
            &&& s2.topics[i as int].subscriptions == kept
            &&& forall|j: int| 0 <= j < s0.topics.len() && j != i ==> s2.topics[j] == s0.topics[j]
            &&& forall|n: int| 0 <= n < kept.len() ==> #[trigger] kept[n].subscriber_id != id
            &&& planned_dispatches(s2, i, wait) == kept.map_values(
                |sub: Subscription| dispatch_of(sub, wait),
            )
        }),
{
    law_subscription_reaches_publishers(s, topic, config, id, tx, rx);
    let (s0, i) = after_create_publisher(s, topic);
    let s1 = after_subscribe(s, topic, config, id, tx, rx);
    law_unsubscribe_keeps_others(s1, id);
    let s2 = after_unsubscribe(s1, id);
    let sub = Subscription { subscriber_id: id, config, sender: tx, receiver: rx };
    let before = s0.topics[i as int].subscriptions;
    let pred = |x: Subscription| x.subscriber_id != id;
    assert(before.push(sub).drop_last() =~= before);
    assert(without_subscriber(before.push(sub), id) == without_subscriber(before, id)) by {
        reveal(Seq::filter);
    }
    assert(s1.subscribers.remove(id) =~= s0.subscribers.remove(id));
    assert forall|n: int| 0 <= n < without_subscriber(before, id).len()
        implies #[trigger] without_subscriber(before, id)[n].subscriber_id != id by {
        before.lemma_filter_pred(pred, n);
    }
}

/// A topic keeps its id for good: whoever unsubscribes, even the topic's
/// last subscriber, a publisher asking for the topic again gets the id it
/// had, so a publisher holding that id reaches every later subscriber.
pub proof fn law_topic_keeps_its_id(
    s: PubSubState,
    topic: Seq<char>,
    config: TopicConfig,
    id: Seq<char>,
    tx: Sender<MessageWrapper>,
    rx: Receiver<MessageWrapper>,
    other: Seq<char>,
)
    requires
        state_wf(s),
        s.topic_map.contains_key(topic) || s.topics.len() < usize::MAX,
    ensures
        ({
            let (s0, i) = after_create_publisher(s, topic);
            let s2 = after_unsubscribe(after_subscribe(s0, topic, config, id, tx, rx), other);
            &&& after_create_publisher(s2, topic) == (s2, i)
            &&& after_unsubscribe(s, other).topic_map == s.topic_map
        }),
{
    law_create_publisher_resolves(s, topic);
    let (s0, i) = after_create_publisher(s, topic);
    law_subscription_reaches_publishers(s0, topic, config, id, tx, rx);
    let s1 = after_subscribe(s0, topic, config, id, tx, rx);
    law_unsubscribe_keeps_others(s1, other);
}

/// Two subscriptions to the same topic land in the same slot, in the order
/// they were made, so one publish reaches both.
pub proof fn law_subscribers_share_topic(
    s: PubSubState,
    topic: Seq<char>,
    c1: TopicConfig,
    id1: Seq<char>,
    tx1: Sender<MessageWrapper>,
    rx1: Receiver<MessageWrapper>,
    c2: TopicConfig,
    id2: Seq<char>,
    tx2: Sender<MessageWrapper>,
    rx2: Receiver<MessageWrapper>,
)
    requires
        state_wf(s),
        s.topic_map.contains_key(topic) || s.topics.len() < usize::MAX,
    ensures
        ({
            let (s0, i) = after_create_publisher(s, topic);
            let s1 = after_subscribe(s, topic, c1, id1, tx1, rx1);
            let s2 = after_subscribe(s1, topic, c2, id2, tx2, rx2);
            let n = s0.topics[i as int].subscriptions.len();
            &&& subscription_slot(s1, topic) == i
            &&& s2.topics[i as int].subscriptions.len() == n + 2
            &&& s2.topics[i as int].subscriptions[n as int] == Subscription {
                subscriber_id: id1,
                config: c1,
                sender: tx1,
                receiver: rx1,
            }
            &&& s2.topics[i as int].subscriptions[n as int + 1] == Subscription {
                subscriber_id: id2,
                config: c2,
                sender: tx2,
                receiver: rx2,
            }
            &&& s2.topics[i as int].subscriptions.subrange(0, n as int)
                == s0.topics[i as int].subscriptions
        }),
{
    law_subscription_reaches_publishers(s, topic, c1, id1, tx1, rx1);
    let s1 = after_subscribe(s, topic, c1, id1, tx1, rx1);
    law_subscription_reaches_publishers(s1, topic, c2, id2, tx2, rx2);
    let (s0, i) = after_create_publisher(s, topic);
    let n = s0.topics[i as int].subscriptions.len();
    let s2 = after_subscribe(s1, topic, c2, id2, tx2, rx2);
    assert(s2.topics[i as int].subscriptions.subrange(0, n as int)
        =~= s0.topics[i as int].subscriptions);
}

/// In any well-formed state, and so after any sequence of operations from
/// an empty registry, two different topic names never resolve to the same
/// topic id.
pub proof fn law_topic_ids_distinct(s: PubSubState, t1: Seq<char>, t2: Seq<char>)
    requires
        state_wf(s),
        s.topic_map.contains_key(t1),
        s.topic_map.contains_key(t2),
        t1 != t2,
    ensures
        s.topic_map[t1] != s.topic_map[t2],
{
}

/// The plan of a publish to a topic id (which the publish functions carry
/// out) reaches every subscription of that slot exactly once, in
/// subscription order, through that subscription's own queue and by its own
/// queue-full rule; an id that names no slot reaches nothing.
pub proof fn law_publish_reaches_each_subscription_once(
    s: PubSubState,
    topic_id: usize,
    wait: Wait,
)
    ensures
        ({
            let plan = planned_dispatches(s, topic_id, wait);
            &&& topic_id >= s.topics.len() ==> plan.len() == 0
            &&& topic_id < s.topics.len() ==> {
                let subs = s.topics[topic_id as int].subscriptions;
                &&& plan.len() == subs.len()
                &&& forall|n: int| 0 <= n < subs.len() ==> {
                    &&& #[trigger] plan[n].sender() == subs[n].sender
                    &&& plan[n].receiver() == subs[n].receiver
                    &&& plan[n].rule() == delivery_for(subs[n].config, wait)
                }
            }
        }),
{
    if topic_id < s.topics.len() {
        let subs = s.topics[topic_id as int].subscriptions;
        let plan = planned_dispatches(s, topic_id, wait);
        assert forall|n: int| 0 <= n < subs.len() implies {
            &&& #[trigger] plan[n].sender() == subs[n].sender
            &&& plan[n].receiver() == subs[n].receiver
            &&& plan[n].rule() == delivery_for(subs[n].config, wait)
        } by {
            lemma_dispatch_of(subs[n], wait);
        }
    }
}

/// A new subscription is the last step of every later publish to its
/// topic's id, whether the publisher got that id before or after it
/// subscribed; the steps for the earlier subscriptions come first,
/// unchanged.
pub proof fn law_publish_reaches_new_subscriber(
    s: PubSubState,
    topic: Seq<char>,
    config: TopicConfig,
    id: Seq<char>,
    tx: Sender<MessageWrapper>,
    rx: Receiver<MessageWrapper>,
    wait: Wait,
)
    requires
        state_wf(s),
        s.topic_map.contains_key(topic) || s.topics.len() < usize::MAX,
    ensures
        ({
            let (s0, i) = after_create_publisher(s, topic);
            let s1 = after_subscribe(s, topic, config, id, tx, rx);
            let plan = planned_dispatches(s1, i, wait);
            let before = planned_dispatches(s0, i, wait);
            &&& after_create_publisher(s1, topic).1 == i
            &&& plan.len() == before.len() + 1
            &&& plan.last().sender() == tx
            &&& plan.last().receiver() == rx
            &&& plan.last().rule() == delivery_for(config, wait)
            &&& plan.drop_last() == before
        }),
{
    law_subscription_reaches_publishers(s, topic, config, id, tx, rx);
    let (s0, i) = after_create_publisher(s, topic);
    let s1 = after_subscribe(s, topic, config, id, tx, rx);
    let plan = planned_dispatches(s1, i, wait);
    let before = planned_dispatches(s0, i, wait);
    assert(plan.drop_last() =~= before);
    lemma_dispatch_of(s1.topics[i as int].subscriptions.last(), wait);
}

/// Unsubscribing a live subscriber takes out of its topic's slot every
/// subscription made under its id, wherever they stand there, and nothing
/// else: afterwards no subscription of the slot carries the id, and a
/// subscription is in the slot exactly when it was there before and carries
/// another id. Every other slot is untouched.
pub proof fn law_unsubscribe_removes_exactly_that_subscriber(s: PubSubState, id: Seq<char>)
    requires
        state_wf(s),
        s.subscribers.contains_key(id),
        s.topic_map.contains_key(s.subscribers[id].topic),
    ensures
        ({
            let i = s.topic_map[s.subscribers[id].topic] as int;
            let before = s.topics[i].subscriptions;
            let s1 = after_unsubscribe(s, id);
            let after = s1.topics[i].subscriptions;
            &&& s1.topics.len() == s.topics.len()
            &&& forall|n: int| 0 <= n < after.len() ==> #[trigger] after[n].subscriber_id != id
            &&& forall|x: Subscription| #[trigger] after.contains(x)
                    <==> (before.contains(x) && x.subscriber_id != id)
            &&& after.len() <= before.len()
            &&& forall|j: int| 0 <= j < s.topics.len() && j != i ==> s1.topics[j] == s.topics[j]
            &&& !s1.subscribers.contains_key(id)
        }),
{
    let i = s.topic_map[s.subscribers[id].topic] as int;
    let before = s.topics[i].subscriptions;
    let pred = |x: Subscription| x.subscriber_id != id;
    let after = after_unsubscribe(s, id).topics[i].subscriptions;
    assert(after == before.filter(pred));
    before.lemma_filter_len(pred);
    assert forall|n: int| 0 <= n < after.len() implies #[trigger] after[n].subscriber_id != id by {
        before.lemma_filter_pred(pred, n);
    }
    assert forall|x: Subscription| #[trigger] after.contains(x)
        <==> (before.contains(x) && x.subscriber_id != id) by {
        if after.contains(x) {
            before.lemma_filter_contains_rev(pred, x);
            let n = choose|n: int| 0 <= n < after.len() && after[n] == x;
            before.lemma_filter_pred(pred, n);
        }
        if before.contains(x) && x.subscriber_id != id {
            let n = choose|n: int| 0 <= n < before.len() && before[n] == x;
            before.lemma_filter_contains(pred, n);
        }
    }
}

/// The queue-full rule for every configuration and patience: an
/// overwriting queue that can hold a message always has its oldest messages
/// dropped to make room, and is never waited on; a queue of depth zero is
/// only offered the message; a queue that does not overwrite is offered the
/// message when the publisher will not wait, waited on without limit when
/// it will, and waited on for exactly the given milliseconds otherwise. So a
/// publish that will not wait never waits on any queue.
pub proof fn law_queue_full_rule(config: TopicConfig, wait: Wait)
    ensures
        config.overwrites() && config.depth() > 0 ==> delivery_for(config, wait)
            == Delivery::EvictOldest,
        config.overwrites() && config.depth() == 0 ==> delivery_for(config, wait) == Delivery::Try,
        !config.overwrites() && wait == Wait::Immediate ==> delivery_for(config, wait)
            == Delivery::Try,
        !config.overwrites() && wait == Wait::Forever ==> delivery_for(config, wait)
            == Delivery::Block,
        forall|ms: u64|
            !config.overwrites() && wait == Wait::Millis(ms) ==> delivery_for(config, wait)
                == Delivery::Timeout(ms),
        wait == Wait::Immediate ==> (delivery_for(config, wait) == Delivery::Try
            || delivery_for(config, wait) == Delivery::EvictOldest),
{
}

/// A subscription under an id that no live subscriber holds (as every id
/// `open_subscription` and `subscribe_manual` hand out is) leaves every
/// other live subscriber's record as it was, and unsubscribing the newcomer
/// afterwards still leaves it: a new subscriber can never take over or end
/// another's subscription.
pub proof fn law_fresh_subscription_keeps_others(
    s: PubSubState,
    topic: Seq<char>,
    config: TopicConfig,
    id: Seq<char>,
    tx: Sender<MessageWrapper>,
    rx: Receiver<MessageWrapper>,
    other: Seq<char>,
)
    requires
        state_wf(s),
        s.topic_map.contains_key(topic) || s.topics.len() < usize::MAX,
        !s.subscribers.contains_key(id),
        s.subscribers.contains_key(other),
    ensures
        ({
            let s1 = after_subscribe(s, topic, config, id, tx, rx);
            let s2 = after_unsubscribe(s1, id);
            &&& other != id
            &&& s1.subscribers.contains_key(other)
            &&& s1.subscribers[other] == s.subscribers[other]
            &&& s2.subscribers.contains_key(other)
            &&& s2.subscribers[other] == s.subscribers[other]
        }),
{
    law_create_publisher_resolves(s, topic);
}

} // verus!
