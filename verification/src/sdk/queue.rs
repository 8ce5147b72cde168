use vstd::prelude::*;

use std::collections::VecDeque;

use crate::error::FlameError;

verus! {

/// Whether a queue still takes items.
#[derive(Debug, Clone, Copy, PartialEq, Eq, Structural)]
pub enum AsyncQueueState {
    Open,
    Closed,
}

/// A first-in, first-out queue that can be closed.
pub struct AsyncQueueImpl<T> {
    queue: VecDeque<T>,
    state: AsyncQueueState,
}

impl<T> View for AsyncQueueImpl<T> {
    /// The items, oldest first, and whether the queue is closed.
    type V = (Seq<T>, bool);

    closed spec fn view(&self) -> (Seq<T>, bool) {
        (self.queue@, self.state == AsyncQueueState::Closed)
    }
}

/// The item a pop hands out: the oldest, if any.
pub open spec fn spec_front<T>(items: Seq<T>) -> Option<T> {
    if items.len() == 0 {
        None
    } else {
        Some(items[0])
    }
}

/// What is left after a pop.
pub open spec fn spec_rest<T>(items: Seq<T>) -> Seq<T> {
    if items.len() == 0 {
        items
    } else {
        items.drop_first()
    }
}

impl<T> AsyncQueueImpl<T> {
    pub fn new() -> (r: Self)
        ensures
            r@.0 == Seq::<T>::empty(),
            !r@.1,
    {
        AsyncQueueImpl { queue: VecDeque::new(), state: AsyncQueueState::Open }
    }

    /// Adds `item` behind the others.
    pub fn push_back(&mut self, item: T)
        ensures
            final(self)@.0 == old(self)@.0.push(item),
            final(self)@.1 == old(self)@.1,
    {
        self.queue.push_back(item);
    }

    /// Takes out the oldest item; `None` when there is none.
    pub fn pop_front(&mut self) -> (r: Option<T>)
        ensures
            r == spec_front(old(self)@.0),
            final(self)@.0 == spec_rest(old(self)@.0),
            final(self)@.1 == old(self)@.1,
    {
        let r = self.queue.pop_front();
        proof {
            if old(self)@.0.len() > 0 {
                let s0 = old(self)@.0;
                assert(s0.subrange(1, s0.len() as int) =~= s0.drop_first());
            }
        }
        r
    }

    /// Marks the queue closed; its items stay.
    pub fn close(&mut self)
        ensures
            final(self)@.0 == old(self)@.0,
            final(self)@.1,
    {
        self.state = AsyncQueueState::Closed;
    }

    pub fn is_closed(&self) -> (r: bool)
        ensures
            r == self@.1,
    {
        self.state == AsyncQueueState::Closed
    }

    /// Whether no item is waiting.
    pub fn is_empty(&self) -> (r: bool)
        ensures
            r == (self@.0.len() == 0),
    {
        self.queue.len() == 0
    }
}

/// What a wait for an item comes to at one look: an item, the end of the
/// queue (empty and closed), or nothing yet.
pub enum ItemPoll<T> {
    Ready(Option<T>),
    Pending,
}

/// A queue of items handed from producers to a consumer that waits for them.
pub struct AsyncQueue<T> {
    queue: AsyncQueueImpl<T>,
}

impl<T> View for AsyncQueue<T> {
    type V = (Seq<T>, bool);

    closed spec fn view(&self) -> (Seq<T>, bool) {
        self.queue@
    }
}

impl<T> AsyncQueue<T> {
    pub fn new() -> (r: Self)
        ensures
            r@.0 == Seq::<T>::empty(),
            !r@.1,
    {
        AsyncQueue { queue: AsyncQueueImpl::new() }
    }

    /// Adds `item` behind the others.
    pub fn push_back(&mut self, item: T) -> (r: Result<(), FlameError>)
        ensures
            r is Ok,
            final(self)@.0 == old(self)@.0.push(item),
            final(self)@.1 == old(self)@.1,
    {
        self.queue.push_back(item);
        Ok(())
    }

    /// One look of a consumer waiting for an item: the oldest item if there
    /// is one; the end, `Ready(None)`, when the queue is empty and closed;
    /// else `Pending`, and nothing changes.
    pub fn poll_pop(&mut self) -> (r: ItemPoll<T>)
        ensures
            old(self)@.0.len() > 0 ==> r == ItemPoll::Ready(Some(old(self)@.0[0])),
            old(self)@.0.len() > 0 ==> final(self)@.0 == old(self)@.0.drop_first(),
            old(self)@.0.len() == 0 && old(self)@.1 ==> r == ItemPoll::<T>::Ready(None),
            old(self)@.0.len() == 0 && !old(self)@.1 ==> r == ItemPoll::<T>::Pending,
            old(self)@.0.len() == 0 ==> final(self)@.0 == old(self)@.0,
            final(self)@.1 == old(self)@.1,
    {
        let item = self.queue.pop_front();
        match item {
            Some(x) => ItemPoll::Ready(Some(x)),
            None => if self.queue.is_closed() {
                ItemPoll::Ready(None)
            } else {
                ItemPoll::Pending
            },
        }
    }

    /// Closes the queue; the items already in it stay to be taken.
    pub fn close(&mut self)
        ensures
            final(self)@.0 == old(self)@.0,
            final(self)@.1,
    {
        self.queue.close();
    }

    /// One look of a closer waiting for the queue to drain: done when no
    /// item is left.
    pub fn poll_close(&self) -> (r: bool)
        ensures
            r == (self@.0.len() == 0),
    {
        self.queue.is_empty()
    }

    pub fn is_closed(&self) -> (r: bool)
        ensures
            r == self@.1,
    {
        self.queue.is_closed()
    }
}

/// Items leave in the order they came: after `x` is pushed onto the items
/// `s`, a pop hands out the oldest of `s` (or `x` when `s` is empty), and
/// pushing then popping is popping then pushing.
pub proof fn law_first_in_first_out<T>(s: Seq<T>, x: T)
    ensures
        spec_front(s.push(x)) == (if s.len() == 0 {
            Some(x)
        } else {
            spec_front(s)
        }),
        s.len() > 0 ==> spec_rest(s.push(x)) == spec_rest(s).push(x),
        s.len() == 0 ==> spec_rest(s.push(x)) == s,
{
    if s.len() > 0 {
        assert(spec_rest(s.push(x)) =~= spec_rest(s).push(x));
    } else {
        assert(spec_rest(s.push(x)) =~= s);
    }
}

/// Draining the items `s` one pop at a time hands them out in order: the
/// `k`-th pop gives `s[k]`.
pub open spec fn pops<T>(s: Seq<T>, k: nat) -> Seq<T>
    decreases k,
{
    if k == 0 {
        s
    } else {
        spec_rest(pops(s, (k - 1) as nat))
    }
}

pub proof fn law_pops_in_order<T>(s: Seq<T>, k: nat)
    requires
        k < s.len(),
    ensures
        spec_front(pops(s, k)) == Some(s[k as int]),
        pops(s, k) == s.subrange(k as int, s.len() as int),
    decreases k,
{
    if k == 0 {
        assert(s.subrange(0, s.len() as int) =~= s);
    } else {
        law_pops_in_order(s, (k - 1) as nat);
        assert(pops(s, k) =~= s.subrange(k as int, s.len() as int));
    }
}

} // verus!
