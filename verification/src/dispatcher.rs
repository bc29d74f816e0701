//! Sending a batch of messages: each is tried once, and a send that fails
//! holds up none of the others.

use crate::notifier::Notification;
use vstd::prelude::*;

verus! {

/// The state of a batch: the messages, how many of them were tried, and the
/// users whose message could not be sent, in the order of the attempts.
pub struct Batch {
    pub queue: Seq<Notification>,
    pub attempted: nat,
    pub failed: Seq<i64>,
}

impl Batch {
    /// The batch before anything was tried.
    pub open spec fn start(queue: Seq<Notification>) -> Batch {
        Batch { queue, attempted: 0, failed: Seq::empty() }
    }

    /// Whether a message is still to be tried.
    pub open spec fn pending(self) -> bool {
        self.attempted < self.queue.len()
    }

    /// The batch after the pending attempt ended: the next message is up,
    /// whether the last one was delivered or not. With nothing pending the
    /// batch stays as it is.
    pub open spec fn step(self, delivered: bool) -> Batch {
        if !self.pending() {
            self
        } else if delivered {
            Batch { attempted: self.attempted + 1, ..self }
        } else {
            Batch {
                attempted: self.attempted + 1,
                failed: self.failed.push(self.queue[self.attempted as int].user_id),
                ..self
            }
        }
    }

    /// The batch after one attempt for each of `outcomes`, in order.
    pub open spec fn steps(self, outcomes: Seq<bool>) -> Batch
        decreases outcomes.len(),
    {
        if outcomes.len() == 0 {
            self
        } else {
            self.steps(outcomes.drop_last()).step(outcomes.last())
        }
    }
}

/// The users among the first `n` of `queue` whose attempt, by `outcomes`, did
/// not deliver.
pub open spec fn undelivered(queue: Seq<Notification>, outcomes: Seq<bool>, n: nat) -> Seq<i64>
    decreases n,
{
    if n == 0 || n > queue.len() || n > outcomes.len() {
        Seq::empty()
    } else {
        let before = undelivered(queue, outcomes, (n - 1) as nat);
        if outcomes[n - 1] {
            before
        } else {
            before.push(queue[n - 1].user_id)
        }
    }
}

/// Whatever the outcomes are, each one moves the batch on by one message
/// until all were tried: a failure costs no other user an attempt. The
/// users who failed are those whose own attempt did not deliver.
pub proof fn lemma_every_message_is_tried(queue: Seq<Notification>, outcomes: Seq<bool>)
    ensures
        Batch::start(queue).steps(outcomes).queue == queue,
        Batch::start(queue).steps(outcomes).attempted == if outcomes.len() <= queue.len() {
            outcomes.len()
        } else {
            queue.len()
        },
        Batch::start(queue).steps(outcomes).failed == undelivered(
            queue,
            outcomes,
            Batch::start(queue).steps(outcomes).attempted,
        ),
    decreases outcomes.len(),
{
    if outcomes.len() > 0 {
        let earlier = outcomes.drop_last();
        lemma_every_message_is_tried(queue, earlier);
        let before = Batch::start(queue).steps(earlier);
        lemma_undelivered_prefix(queue, earlier, outcomes, before.attempted);
    }
}

/// Who failed among the first `n` depends on the first `n` outcomes only.
pub proof fn lemma_undelivered_prefix(
    queue: Seq<Notification>,
    short: Seq<bool>,
    long: Seq<bool>,
    n: nat,
)
    requires
        n <= short.len() <= long.len(),
        forall|i: int| 0 <= i < short.len() ==> short[i] == long[i],
    ensures
        undelivered(queue, short, n) == undelivered(queue, long, n),
    decreases n,
{
    if n > 0 && n <= queue.len() {
        lemma_undelivered_prefix(queue, short, long, (n - 1) as nat);
    }
}

/// The sending of a batch of messages. Ask for the next message, try to
/// send it, record how that went, and go on until none is left.
pub struct Dispatcher {
    queue: Vec<Notification>,
    attempted: usize,
    failed: Vec<i64>,
}

impl View for Dispatcher {
    type V = Batch;

    closed spec fn view(&self) -> Batch {
        Batch { queue: self.queue@, attempted: self.attempted as nat, failed: self.failed@ }
    }
}

impl Dispatcher {
    #[verifier::type_invariant]
    spec fn well_formed(&self) -> bool {
        self.attempted <= self.queue.len()
    }

    /// A dispatcher that has `queue` to send.
    pub fn new(queue: Vec<Notification>) -> (dispatcher: Dispatcher)
        ensures
            dispatcher@ == Batch::start(queue@),
    {
        Dispatcher { queue, attempted: 0, failed: Vec::new() }
    }

    /// The message to try next, or `None` once all were tried.
    pub fn next(&self) -> (message: Option<&Notification>)
        ensures
            self@.attempted <= self@.queue.len(),
            self@.pending() ==> message == Some(&self@.queue[self@.attempted as int]),
            !self@.pending() ==> message is None,
    {
        proof {
            use_type_invariant(self);
        }
        if self.attempted < self.queue.len() {
            Some(&self.queue[self.attempted])
        } else {
            None
        }
    }

    /// Records how the attempt for the pending message ended.
    pub fn record(self, delivered: bool) -> (after: Dispatcher)
        ensures
            after@ == self@.step(delivered),
    {
        proof {
            use_type_invariant(&self);
        }
        let Dispatcher { queue, attempted, failed } = self;
        if attempted < queue.len() {
            let mut failed = failed;
            if !delivered {
                failed.push(queue[attempted].user_id);
            }
            Dispatcher { queue, attempted: attempted + 1, failed }
        } else {
            Dispatcher { queue, attempted, failed }
        }
    }

    /// The users whose message could not be sent so far.
    pub fn failures(&self) -> (failed: &Vec<i64>)
        ensures
            failed@ == self@.failed,
    {
        &self.failed
    }
}

} // verus!
