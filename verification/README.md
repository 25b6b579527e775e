# rust_pubsub

An in-memory publish-subscribe registry. Publishers ask for a topic id by
topic name; subscribers get a bounded queue on a topic, each with its own
depth and its own rule for a full queue (drop the oldest message, or leave
the queue alone); publishing hands a message of any type to every queue of
the topic, and a subscriber reads it back under the type it names.

What is proved: the registry's bookkeeping exactly (topic ids, which
queues each topic holds, who is subscribed); that a publish plans one step
per subscription of its topic, each by that queue's own rule; and which
queue operations a publish or a receive then makes (each operation reports
the call it made). What the queues then hold is not stated: they are
crossbeam channels shared between threads.

Layout:

- `src/state.rs` — the abstract state of the registry and what each
  operation does to it.
- `src/pubsub.rs` — the registry (`PubSub`), verified against `state.rs`.
- `src/laws.rs` — properties across operations, proved over `state.rs`.
- `src/config.rs` — queue configuration and the queue-full rule.
- `src/receiver.rs` — `ManualReceiver`, a subscriber's polling end.
- `src/table.rs` — a name-keyed table with unique names.
- `src/channel.rs`, `src/ident.rs`, `src/message.rs` — the trusted edges:
  `crossbeam_channel` queues, `uuid` subscriber ids, and type-erased
  message payloads.
- `app/lib.rs` — the process-wide shared registry behind a lock (a
  publish takes its plan under the lock and sends after releasing it), and
  callback subscriptions served on their own threads by `serve_next`.
