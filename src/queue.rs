use vstd::prelude::*;
use std::collections::VecDeque;
use crate::message::Message;

verus! {

/// The ordered hand-off between the submitter and the workers: first in,
/// first out, unbounded.
pub struct JobQueue<J> {
    items: VecDeque<Message<J>>,
}

impl<J> View for JobQueue<J> {
    type V = Seq<Message<J>>;

    /// The pending messages, the oldest first.
    closed spec fn view(&self) -> Seq<Message<J>> {
        self.items@
    }
}

impl<J> JobQueue<J> {
    /// An empty queue.
    pub fn new() -> (q: Self)
        ensures
            q@ == Seq::<Message<J>>::empty(),
    {
        JobQueue { items: VecDeque::new() }
    }

    /// Number of pending messages.
    pub fn len(&self) -> (r: usize)
        ensures
            r == self@.len(),
    {
        self.items.len()
    }

    /// Appends a message at the back; it never fails.
    pub fn enqueue(&mut self, m: Message<J>)
        ensures
            final(self)@ == old(self)@.push(m),
    {
        self.items.push_back(m);
    }

    /// Takes the oldest message, or `None` when nothing is pending.
    pub fn dequeue(&mut self) -> (r: Option<Message<J>>)
        ensures
            old(self)@.len() == 0 ==> r is None && final(self)@ == old(self)@,
            old(self)@.len() > 0 ==> r == Some(old(self)@[0])
                && final(self)@ == old(self)@.drop_first(),
    {
        let r = self.items.pop_front();
        proof {
            if old(self)@.len() > 0 {
                assert(self@ =~= old(self)@.drop_first());
            }
        }
        r
    }
}

} // verus!
