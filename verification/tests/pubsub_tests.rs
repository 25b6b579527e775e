use rust_pubsub::{Delivery, ManualReceiver, MessageWrapper, PubSub, TopicConfig, Wait};

#[test]
fn topic_config_new_keeps_its_settings() {
    let c = TopicConfig::new(10, false);
    assert_eq!(c.queue_depth(), 10);
    assert!(!c.overwrite());
    let d = TopicConfig::new(5, true);
    assert_eq!(d.queue_depth(), 5);
    assert!(d.overwrite());
}

#[test]
fn delivery_follows_the_queue_full_rule() {
    let keep = TopicConfig::new(2, false);
    let over = TopicConfig::new(2, true);
    assert_eq!(keep.delivery(Wait::Immediate), Delivery::Try);
    assert_eq!(keep.delivery(Wait::Forever), Delivery::Block);
    assert_eq!(keep.delivery(Wait::Millis(100)), Delivery::Timeout(100));
    assert_eq!(over.delivery(Wait::Immediate), Delivery::EvictOldest);
    assert_eq!(over.delivery(Wait::Forever), Delivery::EvictOldest);
    assert_eq!(over.delivery(Wait::Millis(7)), Delivery::EvictOldest);
}

#[test]
fn create_publisher_is_idempotent_per_topic() {
    let mut ps = PubSub::new();
    let a = ps.create_publisher("a");
    let b = ps.create_publisher("b");
    assert_eq!(a, 0);
    assert_eq!(b, 1);
    assert_eq!(ps.create_publisher("a"), a);
    assert_eq!(ps.create_publisher("b"), b);
    assert_ne!(a, b);
}

#[test]
fn manual_subscription_receives_published_message() {
    let mut ps = PubSub::new();
    let topic_id = ps.create_publisher("test_topic");
    let receiver = ps.subscribe_manual::<String>("test_topic", TopicConfig::new(10, false));
    ps.publish(topic_id, "Hello, World!".to_string());
    assert_eq!(receiver.try_recv().0, Some("Hello, World!".to_string()));
    assert_eq!(receiver.try_recv().0, None);
}

#[test]
fn subscription_before_publisher_uses_the_same_topic_id() {
    let mut ps = PubSub::new();
    let receiver = ps.subscribe_manual::<i32>("late", TopicConfig::new(4, false));
    let topic_id = ps.create_publisher("late");
    assert_eq!(topic_id, 0);
    ps.publish(topic_id, 7i32);
    assert_eq!(receiver.try_recv().0, Some(7));
}

#[test]
fn overwrite_queue_keeps_the_newest_messages() {
    let mut ps = PubSub::new();
    let topic_id = ps.create_publisher("overwrite_topic");
    let receiver = ps.subscribe_manual::<String>("overwrite_topic", TopicConfig::new(2, true));
    ps.publish(topic_id, "Message 1".to_string());
    ps.publish(topic_id, "Message 2".to_string());
    ps.publish(topic_id, "Message 3".to_string());
    assert_eq!(receiver.try_recv().0, Some("Message 2".to_string()));
    assert_eq!(receiver.try_recv().0, Some("Message 3".to_string()));
    assert_eq!(receiver.try_recv().0, None);
}

#[test]
fn try_publish_on_full_queue_drops_the_new_message() {
    let mut ps = PubSub::new();
    let topic_id = ps.create_publisher("queue_topic");
    let receiver = ps.subscribe_manual::<String>("queue_topic", TopicConfig::new(2, false));
    ps.try_publish(topic_id, "Message 1".to_string());
    ps.try_publish(topic_id, "Message 2".to_string());
    ps.try_publish(topic_id, "Message 3".to_string());
    assert_eq!(receiver.try_recv().0, Some("Message 1".to_string()));
    assert_eq!(receiver.try_recv().0, Some("Message 2".to_string()));
    assert_eq!(receiver.try_recv().0, None);
}

#[test]
fn try_publish_on_overwrite_queue_evicts_oldest() {
    let mut ps = PubSub::new();
    let topic_id = ps.create_publisher("t");
    let receiver = ps.subscribe_manual::<u8>("t", TopicConfig::new(1, true));
    ps.try_publish(topic_id, 1u8);
    ps.try_publish(topic_id, 2u8);
    assert_eq!(receiver.try_recv().0, Some(2));
    assert_eq!(receiver.try_recv().0, None);
}

#[test]
fn publish_with_timeout_gives_up_on_a_full_queue() {
    let mut ps = PubSub::new();
    let topic_id = ps.create_publisher("timeout_topic");
    let receiver = ps.subscribe_manual::<i32>("timeout_topic", TopicConfig::new(1, false));
    ps.publish_with_timeout(topic_id, 42i32, Some(100));
    ps.publish_with_timeout(topic_id, 43i32, Some(10));
    assert_eq!(receiver.recv_timeout(Some(100)).0, Some(42));
    assert_eq!(receiver.recv_timeout(Some(10)).0, None);
}

#[test]
fn recv_blocks_until_a_message_is_there() {
    let mut ps = PubSub::new();
    let topic_id = ps.create_publisher("r");
    let receiver = ps.subscribe_manual::<u64>("r", TopicConfig::new(3, false));
    ps.publish(topic_id, 99u64);
    assert_eq!(receiver.recv().0, Some(99));
}

#[test]
fn every_subscriber_of_a_topic_gets_the_message() {
    let mut ps = PubSub::new();
    let topic_id = ps.create_publisher("multi_subscriber_topic");
    let config = TopicConfig::new(10, false);
    let r1 = ps.subscribe_manual::<String>("multi_subscriber_topic", config.clone());
    let r2 = ps.subscribe_manual::<String>("multi_subscriber_topic", config.clone());
    ps.publish(topic_id, "Broadcast message".to_string());
    assert_eq!(r1.try_recv().0, Some("Broadcast message".to_string()));
    assert_eq!(r2.try_recv().0, Some("Broadcast message".to_string()));
    assert_ne!(r1.subscriber_id(), r2.subscriber_id());
}

#[test]
fn subscribers_choose_their_own_queue_full_behaviour() {
    let mut ps = PubSub::new();
    let r_over = ps.subscribe_manual::<String>("queue_topic", TopicConfig::new(2, true));
    let r_keep = ps.subscribe_manual::<String>("queue_topic", TopicConfig::new(2, false));
    let topic_id = ps.create_publisher("queue_topic");
    for m in ["Message 1", "Message 2", "Message 3"] {
        ps.try_publish(topic_id, m.to_string());
    }
    assert_eq!(r_over.try_recv().0, Some("Message 2".to_string()));
    assert_eq!(r_over.try_recv().0, Some("Message 3".to_string()));
    assert_eq!(r_keep.try_recv().0, Some("Message 1".to_string()));
    assert_eq!(r_keep.try_recv().0, Some("Message 2".to_string()));
    assert_eq!(r_keep.try_recv().0, None);
}

#[test]
fn a_message_of_another_type_is_not_handed_out() {
    let mut ps = PubSub::new();
    let topic_id = ps.create_publisher("typed");
    let receiver = ps.subscribe_manual::<i32>("typed", TopicConfig::new(4, false));
    ps.publish(topic_id, "not a number".to_string());
    assert_eq!(receiver.try_recv().0, None);
    ps.publish(topic_id, 5i32);
    assert_eq!(receiver.try_recv().0, Some(5));
}

#[derive(Clone, Debug, PartialEq)]
struct CustomMessage {
    id: u32,
    content: String,
}

#[test]
fn custom_structs_travel_as_messages() {
    let mut ps = PubSub::new();
    let receiver = ps.subscribe_manual::<CustomMessage>("multi_topic", TopicConfig::new(10, false));
    let p1 = ps.create_publisher("multi_topic");
    let p2 = ps.create_publisher("multi_topic");
    assert_eq!(p1, p2);
    ps.publish(p1, CustomMessage { id: 1, content: "Message from Publisher 1".to_string() });
    ps.publish(p2, CustomMessage { id: 2, content: "Message from Publisher 2".to_string() });
    assert_eq!(receiver.try_recv().0.map(|m| m.id), Some(1));
    assert_eq!(
        receiver.try_recv().0,
        Some(CustomMessage { id: 2, content: "Message from Publisher 2".to_string() })
    );
}

#[test]
fn publishing_to_an_unknown_topic_id_does_nothing() {
    let mut ps = PubSub::new();
    let receiver = ps.subscribe_manual::<i32>("x", TopicConfig::new(2, false));
    ps.publish(17, 1i32);
    ps.try_publish(17, 1i32);
    ps.publish_with_timeout(17, 1i32, Some(1));
    assert_eq!(receiver.try_recv().0, None);
}

#[test]
fn unsubscribed_receiver_gets_nothing_more() {
    let mut ps = PubSub::new();
    let topic_id = ps.create_publisher("u");
    let staying = ps.subscribe_manual::<i32>("u", TopicConfig::new(4, false));
    let leaving = ps.subscribe_manual::<i32>("u", TopicConfig::new(4, false));
    let watcher = leaving.clone();
    assert_eq!(watcher.subscriber_id(), leaving.subscriber_id());
    leaving.unsubscribe(&mut ps);
    ps.publish(topic_id, 3i32);
    assert_eq!(staying.try_recv().0, Some(3));
    assert_eq!(watcher.try_recv().0, None);
    assert_eq!(ps.create_publisher("u"), topic_id);
}

#[test]
fn unsubscribing_an_unknown_id_changes_nothing() {
    let mut ps = PubSub::new();
    let topic_id = ps.create_publisher("n");
    let r = ps.subscribe_manual::<i32>("n", TopicConfig::new(2, false));
    ps.unsubscribe("no-such-subscriber");
    ps.publish(topic_id, 1i32);
    assert_eq!(r.try_recv().0, Some(1));
    assert_eq!(ps.create_publisher("n"), topic_id);
}

#[test]
fn a_topic_keeps_its_id_after_its_last_subscriber_leaves() {
    let mut ps = PubSub::new();
    let old_id = ps.create_publisher("topic");
    let r = ps.subscribe_manual::<i32>("topic", TopicConfig::new(2, false));
    let id = r.subscriber_id().clone();
    ps.unsubscribe(&id);
    assert_eq!(ps.create_publisher("topic"), old_id);
    let r2 = ps.subscribe_manual::<i32>("topic", TopicConfig::new(2, false));
    ps.publish(old_id, 1i32);
    assert_eq!(r2.try_recv().0, Some(1));
    assert_eq!(ps.create_publisher("other"), 1);
}

#[test]
fn register_subscriber_records_the_given_id() {
    let mut ps = PubSub::new();
    let (ia, rx_a) = ps.register_subscriber("reg", TopicConfig::new(4, false), "a".to_string());
    let (ib, rx_b) = ps.register_subscriber("reg", TopicConfig::new(4, false), "b".to_string());
    assert_eq!(ia, ib);
    assert_eq!(ps.create_publisher("reg"), ia);
    assert_eq!(rx_a.capacity(), Some(4));
    ps.unsubscribe("a");
    ps.publish(ia, 11i32);
    assert!(rx_a.try_recv().is_err());
    let got = rx_b.try_recv().expect("b is still subscribed");
    assert_eq!(got.downcast::<i32>(), Some(&11));
}

#[test]
fn open_subscription_hands_back_id_and_queue() {
    let mut ps = PubSub::new();
    let (id, rx) = ps.open_subscription("o", TopicConfig::new(1, false));
    assert_eq!(id.len(), 36);
    assert_eq!(rx.capacity(), Some(1));
    let topic_id = ps.create_publisher("o");
    ps.publish(topic_id, 'z');
    let got = rx.try_recv().expect("queued");
    assert_eq!(got.downcast::<char>(), Some(&'z'));
    assert_eq!(got.downcast::<u8>(), None);
}

#[test]
fn zero_depth_queue_drops_messages_nobody_waits_for() {
    let mut ps = PubSub::new();
    let topic_id = ps.create_publisher("zero");
    let r: ManualReceiver<i32> = ps.subscribe_manual("zero", TopicConfig::new(0, false));
    ps.try_publish(topic_id, 1i32);
    ps.publish_with_timeout(topic_id, 2i32, Some(5));
    assert_eq!(r.try_recv().0, None);
}

#[test]
fn message_wrapper_round_trips_its_payload() {
    let m = MessageWrapper::new(vec![1u8, 2, 3]);
    let copy = m.clone();
    assert_eq!(copy.downcast::<Vec<u8>>(), Some(&vec![1u8, 2, 3]));
    assert_eq!(m.downcast::<String>(), None);
}

#[test]
fn overwrite_queue_of_depth_zero_is_only_offered() {
    let zero = TopicConfig::new(0, true);
    assert_eq!(zero.delivery(Wait::Immediate), Delivery::Try);
    assert_eq!(zero.delivery(Wait::Forever), Delivery::Try);
    assert_eq!(zero.delivery(Wait::Millis(3)), Delivery::Try);
    let mut ps = PubSub::new();
    let topic_id = ps.create_publisher("zero_over");
    let r = ps.subscribe_manual::<i32>("zero_over", zero);
    ps.publish(topic_id, 1i32);
    ps.try_publish(topic_id, 2i32);
    assert_eq!(r.try_recv().0, None);
}

#[test]
fn publish_plan_has_one_step_per_subscription() {
    let mut ps = PubSub::new();
    let topic_id = ps.create_publisher("plan");
    let _r1 = ps.subscribe_manual::<i32>("plan", TopicConfig::new(2, true));
    let _r2 = ps.subscribe_manual::<i32>("plan", TopicConfig::new(3, false));
    let _other = ps.subscribe_manual::<i32>("elsewhere", TopicConfig::new(3, false));
    let plan = ps.publish_plan(topic_id, Wait::Millis(5));
    assert_eq!(plan.len(), 2);
    assert_eq!(plan[0].delivery(), Delivery::EvictOldest);
    assert_eq!(plan[1].delivery(), Delivery::Timeout(5));
    assert_eq!(ps.publish_plan(topic_id, Wait::Forever)[1].delivery(), Delivery::Block);
    assert_eq!(ps.publish_plan(topic_id, Wait::Immediate)[1].delivery(), Delivery::Try);
    assert!(ps.publish_plan(99, Wait::Forever).is_empty());
    let empty_id = ps.create_publisher("nobody");
    assert!(ps.publish_plan(empty_id, Wait::Forever).is_empty());
}

#[test]
fn publish_plan_drops_an_unsubscribed_queue() {
    let mut ps = PubSub::new();
    let topic_id = ps.create_publisher("p");
    let a = ps.subscribe_manual::<i32>("p", TopicConfig::new(2, false));
    let b = ps.subscribe_manual::<i32>("p", TopicConfig::new(2, true));
    a.unsubscribe(&mut ps);
    let plan = ps.publish_plan(topic_id, Wait::Immediate);
    assert_eq!(plan.len(), 1);
    assert_eq!(plan[0].delivery(), Delivery::EvictOldest);
    rust_pubsub::dispatch(&plan, MessageWrapper::new(8i32));
    assert_eq!(b.try_recv().0, Some(8));
}

#[test]
fn wait_for_maps_the_timeout() {
    assert_eq!(rust_pubsub::wait_for(None), Wait::Forever);
    assert_eq!(rust_pubsub::wait_for(Some(12)), Wait::Millis(12));
}

#[test]
fn subscriber_ids_are_hyphenated_v4_uuids() {
    let mut ps = PubSub::new();
    let r = ps.subscribe_manual::<i32>("ids", TopicConfig::new(1, false));
    let id: Vec<char> = r.subscriber_id().chars().collect();
    assert_eq!(id.len(), 36);
    for (i, c) in id.iter().enumerate() {
        if i == 8 || i == 13 || i == 18 || i == 23 {
            assert_eq!(*c, '-');
        } else {
            assert!(c.is_ascii_digit() || ('a'..='f').contains(c));
        }
    }
    assert_eq!(id[14], '4');
}

#[test]
fn serve_next_hands_matching_payloads_to_the_callback() {
    let mut ps = PubSub::new();
    let topic_id = ps.create_publisher("cb");
    let (_id, rx) = ps.open_subscription("cb", TopicConfig::new(4, false));
    ps.publish(topic_id, 5i32);
    ps.publish(topic_id, "skip".to_string());
    let seen = std::cell::RefCell::new(Vec::new());
    let callback = |x: &i32| seen.borrow_mut().push(*x);
    assert!(rust_pubsub::serve_next::<i32, _>(&rx, &callback).0);
    assert!(rust_pubsub::serve_next::<i32, _>(&rx, &callback).0);
    assert_eq!(*seen.borrow(), vec![5]);
}
