//! First-in, first-out hand-off of decoded messages from the connection
//! handlers to the thread that owns the window. The queue itself is a plain
//! sequence; whoever shares it between threads guards it with one lock and
//! calls `push` and `pop` while holding it.

use vstd::prelude::*;
use std::collections::VecDeque;
use crate::message::AppMessage;

verus! {

/// Messages that were decoded and not yet processed, oldest first.
pub struct MessageQueue {
    items: VecDeque<AppMessage>,
}

impl View for MessageQueue {
    type V = Seq<AppMessage>;

    closed spec fn view(&self) -> Seq<AppMessage> {
        self.items@
    }
}

impl MessageQueue {
    /// An empty queue.
    pub fn new() -> (queue: Self)
        ensures
            queue@ == Seq::<AppMessage>::empty(),
    {
        MessageQueue { items: VecDeque::new() }
    }

    /// Appends a message behind all that are waiting.
    pub fn push(&mut self, message: AppMessage)
        ensures
            final(self)@ == old(self)@.push(message),
    {
        self.items.push_back(message);
    }

    /// Takes the oldest waiting message, or returns `None` at once when
    /// nothing waits.
    pub fn pop(&mut self) -> (message: Option<AppMessage>)
        ensures
            old(self)@.len() == 0 ==> message.is_none() && final(self)@ == old(self)@,
            old(self)@.len() > 0 ==> message == Some(old(self)@[0]) && final(self)@ == old(
                self,
            )@.skip(1),
    {
        let message = self.items.pop_front();
        proof {
            if old(self)@.len() > 0 {
                assert(self@ =~= old(self)@.skip(1));
            }
        }
        message
    }

    /// The oldest waiting message, left in place.
    pub fn front(&self) -> (message: Option<AppMessage>)
        ensures
            self@.len() == 0 ==> message.is_none(),
            self@.len() > 0 ==> message == Some(self@[0]),
    {
        if self.items.len() > 0 {
            Some(self.items[0])
        } else {
            None
        }
    }

    /// Number of waiting messages.
    pub fn len(&self) -> (n: usize)
        ensures
            n == self@.len(),
    {
        self.items.len()
    }

    /// Whether nothing waits.
    pub fn is_empty(&self) -> (empty: bool)
        ensures
            empty == (self@.len() == 0),
    {
        self.items.len() == 0
    }
}

/// The queue after pushing `messages` one by one, first to last.
pub open spec fn push_all(waiting: Seq<AppMessage>, messages: Seq<AppMessage>) -> Seq<AppMessage>
    decreases messages.len(),
{
    if messages.len() == 0 {
        waiting
    } else {
        push_all(waiting, messages.drop_last()).push(messages.last())
    }
}

/// What `n` pops in a row hand out, first to last; a pop on an empty queue
/// hands out nothing.
pub open spec fn pop_n(waiting: Seq<AppMessage>, n: nat) -> Seq<AppMessage>
    decreases n,
{
    if n == 0 || waiting.len() == 0 {
        Seq::<AppMessage>::empty()
    } else {
        seq![waiting[0]] + pop_n(waiting.skip(1), (n - 1) as nat)
    }
}

/// Pushing appends: the queue after a run of pushes is what waited before,
/// followed by the pushed messages in the order of their pushes.
pub proof fn lemma_push_all_appends(waiting: Seq<AppMessage>, messages: Seq<AppMessage>)
    ensures
        push_all(waiting, messages) == waiting + messages,
    decreases messages.len(),
{
    if messages.len() == 0 {
        assert(waiting + messages =~= waiting);
    } else {
        lemma_push_all_appends(waiting, messages.drop_last());
        assert((waiting + messages.drop_last()).push(messages.last()) =~= waiting + messages);
    }
}

/// Popping takes from the front: `n` pops hand out the first `n` waiting
/// messages in their order.
pub proof fn lemma_pop_n_takes_front(waiting: Seq<AppMessage>, n: nat)
    requires
        n <= waiting.len(),
    ensures
        pop_n(waiting, n) == waiting.take(n as int),
    decreases n,
{
    if n == 0 {
        assert(waiting.take(0) =~= Seq::<AppMessage>::empty());
    } else {
        lemma_pop_n_takes_front(waiting.skip(1), (n - 1) as nat);
        assert(seq![waiting[0]] + waiting.skip(1).take(n - 1) =~= waiting.take(n as int));
    }
}

/// First in, first out: messages pushed onto an empty queue are popped in
/// the order in which their pushes completed, whoever pushed them.
pub proof fn lemma_fifo(messages: Seq<AppMessage>, n: nat)
    requires
        n <= messages.len(),
    ensures
        pop_n(push_all(Seq::<AppMessage>::empty(), messages), n) == messages.take(n as int),
{
    lemma_push_all_appends(Seq::<AppMessage>::empty(), messages);
    assert(Seq::<AppMessage>::empty() + messages =~= messages);
    lemma_pop_n_takes_front(messages, n);
}

} // verus!
