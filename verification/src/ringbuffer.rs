//! A bounded queue that makes room by dropping its oldest item.

use vstd::prelude::*;

verus! {

/// A queue of at most `capacity` items, oldest first.
pub struct RingBuffer<T> {
    items: Vec<T>,
    capacity: usize,
}

impl<T> View for RingBuffer<T> {
    type V = Seq<T>;

    /// The items in the queue, oldest first.
    closed spec fn view(&self) -> Seq<T> {
        self.items@
    }
}

/// `items` with `item` behind them, the oldest dropped first where the queue
/// is full. A queue without room for a single item stays empty.
pub open spec fn spec_push<T>(items: Seq<T>, capacity: nat, item: T) -> Seq<T> {
    if capacity == 0 {
        items
    } else if items.len() >= capacity {
        items.drop_first().push(item)
    } else {
        items.push(item)
    }
}

impl<T> RingBuffer<T> {
    /// The most items the queue holds at a time.
    pub closed spec fn capacity(&self) -> nat {
        self.capacity as nat
    }

    /// The queue never holds more than its capacity.
    pub closed spec fn wf(&self) -> bool {
        self.items@.len() <= self.capacity
    }

    /// An empty queue for at most `capacity` items.
    pub fn new(capacity: usize) -> (buffer: Self)
        ensures
            buffer.wf(),
            buffer@ == Seq::<T>::empty(),
            buffer.capacity() == capacity,
    {
        RingBuffer { items: Vec::new(), capacity }
    }

    /// Puts `item` at the back of the queue, dropping the oldest item first
    /// where the queue is full.
    pub fn push(&mut self, item: T)
        requires
            old(self).wf(),
        ensures
            final(self).wf(),
            final(self).capacity() == old(self).capacity(),
            final(self)@ == spec_push(old(self)@, old(self).capacity(), item),
    {
        if self.capacity == 0 {
            return ;
        }
        if self.items.len() >= self.capacity {
            let _ = self.items.remove(0);
            assert(self.items@ =~= old(self)@.drop_first());
        }
        self.items.push(item);
    }

    /// Takes the oldest item out of the queue.
    pub fn pop(&mut self) -> (item: Option<T>)
        requires
            old(self).wf(),
        ensures
            final(self).wf(),
            final(self).capacity() == old(self).capacity(),
            match item {
                Some(x) => old(self)@.len() > 0 && x == old(self)@[0] && final(self)@ == old(self)@.drop_first(),
                None => old(self)@.len() == 0 && final(self)@ == old(self)@,
            },
    {
        if self.items.len() == 0 {
            None
        } else {
            let x = self.items.remove(0);
            assert(self.items@ =~= old(self)@.drop_first());
            Some(x)
        }
    }

    /// Empties the queue.
    pub fn clear(&mut self)
        requires
            old(self).wf(),
        ensures
            final(self).wf(),
            final(self).capacity() == old(self).capacity(),
            final(self)@ == Seq::<T>::empty(),
    {
        self.items.clear();
    }

    /// The number of items in the queue.
    pub fn len(&self) -> (n: usize)
        ensures
            n == self@.len(),
    {
        self.items.len()
    }

    /// Whether the queue holds nothing.
    pub fn is_empty(&self) -> (empty: bool)
        ensures
            empty == (self@.len() == 0),
    {
        self.items.len() == 0
    }

    /// The item at `index`, counted from the oldest.
    pub fn get(&self, index: usize) -> (item: Option<&T>)
        ensures
            match item {
                Some(x) => index < self@.len() && *x == self@[index as int],
                None => index >= self@.len(),
            },
    {
        if index < self.items.len() {
            Some(&self.items[index])
        } else {
            None
        }
    }
}

} // verus!
