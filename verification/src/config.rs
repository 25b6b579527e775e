use vstd::prelude::*;

verus! {

/// How one subscriber's queue is set up: how many messages it holds, and
/// whether a publisher that finds it full drops the oldest message
/// (`overwrite`) or leaves the queue as it is.
#[derive(Clone, Copy, Debug, PartialEq, Eq, Structural)]
pub struct TopicConfig {
    queue_depth: usize,
    overwrite: bool,
}

/// How long a publisher is prepared to wait for room in a queue that does
/// not overwrite.
#[derive(Clone, Copy, Debug, PartialEq, Eq, Structural)]
pub enum Wait {
    /// Not at all: a full queue does not get the message.
    Immediate,
    /// Until there is room.
    Forever,
    /// At most this many milliseconds.
    Millis(u64),
}

/// What a publisher does with one subscriber's queue.
#[derive(Clone, Copy, Debug, PartialEq, Eq, Structural)]
pub enum Delivery {
    /// Take the oldest messages out while the queue is full, then offer the
    /// message without waiting.
    EvictOldest,
    /// Offer the message without waiting; a full queue does not get it.
    Try,
    /// Wait until the queue has room.
    Block,
    /// Wait at most this many milliseconds for room.
    Timeout(u64),
}

/// The queue-full rule: an overwriting queue makes room by dropping its
/// oldest messages (a queue of depth zero holds none to drop, so it is only
/// offered the message); any other queue is treated as the publisher's
/// patience says.
pub open spec fn delivery_for(config: TopicConfig, wait: Wait) -> Delivery {
    if config.overwrites() {
        if config.depth() == 0 {
            Delivery::Try
        } else {
            Delivery::EvictOldest
        }
    } else {
        match wait {
            Wait::Immediate => Delivery::Try,
            Wait::Forever => Delivery::Block,
            Wait::Millis(ms) => Delivery::Timeout(ms),
        }
    }
}

impl TopicConfig {
    /// The depth this configuration gives a queue.
    pub closed spec fn depth(self) -> usize {
        self.queue_depth
    }

    /// Whether a full queue drops its oldest message for a new one.
    pub closed spec fn overwrites(self) -> bool {
        self.overwrite
    }

    /// A configuration with the given queue depth and overwrite behaviour.
    pub fn new(queue_depth: usize, overwrite: bool) -> (c: Self)
        ensures
            c.depth() == queue_depth,
            c.overwrites() == overwrite,
    {
        TopicConfig { queue_depth, overwrite }
    }

    /// The queue depth.
    pub fn queue_depth(&self) -> (d: usize)
        ensures
            d == self.depth(),
    {
        self.queue_depth
    }

    /// Whether a full queue drops its oldest message for a new one.
    pub fn overwrite(&self) -> (b: bool)
        ensures
            b == self.overwrites(),
    {
        self.overwrite
    }

    /// What a publisher with the given patience does with a queue of this
    /// configuration.
    pub fn delivery(&self, wait: Wait) -> (d: Delivery)
        ensures
            d == delivery_for(*self, wait),
    {
        if self.overwrite {
            if self.queue_depth == 0 {
                Delivery::Try
            } else {
                Delivery::EvictOldest
            }
        } else {
            match wait {
                Wait::Immediate => Delivery::Try,
                Wait::Forever => Delivery::Block,
                Wait::Millis(ms) => Delivery::Timeout(ms),
            }
        }
    }
}

} // verus!
