//! The work list of the propagators that wait to be run.

use std::collections::VecDeque;
use vstd::prelude::*;

verus! {

/// A first-in first-out queue of propagators in which each propagator waits at most once.
pub struct RelaxedFifo {
    inside_queue: Vec<bool>,
    queue: VecDeque<usize>,
}

impl View for RelaxedFifo {
    type V = Seq<usize>;

    /// The propagators that wait, the next one first.
    closed spec fn view(&self) -> Seq<usize> {
        self.queue@
    }
}

impl RelaxedFifo {
    /// For each propagator, whether it is marked as waiting.
    pub closed spec fn marks(&self) -> Seq<bool> {
        self.inside_queue@
    }

    /// The number of propagators that the queue was made for.
    pub open spec fn capacity(&self) -> nat {
        self.marks().len()
    }

    /// The invariant of the queue: it holds propagators below its capacity, none of them
    /// twice, and the marks say exactly which ones.
    pub open spec fn wf(&self) -> bool {
        &&& self@.no_duplicates()
        &&& forall|k: int| 0 <= k < self@.len() ==> (#[trigger] self@[k]) < self.capacity()
        &&& forall|p: usize|
            p < self.capacity() ==> (#[trigger] self.marks()[p as int] <==> self@.contains(p))
    }

    /// An empty queue for the propagators `0..capacity`.
    pub fn new(capacity: usize) -> (queue: RelaxedFifo)
        ensures
            queue.wf(),
            queue.capacity() == capacity,
            queue@ == Seq::<usize>::empty(),
    {
        let mut inside_queue: Vec<bool> = Vec::new();
        let mut i: usize = 0;
        while i < capacity
            invariant
                i <= capacity,
                inside_queue@.len() == i,
                forall|p: int| 0 <= p < i ==> !inside_queue@[p],
            decreases capacity - i,
        {
            inside_queue.push(false);
            i = i + 1;
        }
        RelaxedFifo { inside_queue: inside_queue, queue: VecDeque::new() }
    }

    /// Whether no propagator waits.
    pub fn is_empty(&self) -> (b: bool)
        ensures
            b == (self@.len() == 0),
    {
        self.queue.len() == 0
    }

    /// The number of propagators that wait.
    pub fn len(&self) -> (n: usize)
        ensures
            n == self@.len(),
    {
        self.queue.len()
    }

    /// Whether the propagator `idx` waits.
    pub fn is_scheduled(&self, idx: usize) -> (b: bool)
        requires
            self.wf(),
            idx < self.capacity(),
        ensures
            b == self@.contains(idx),
    {
        self.inside_queue[idx]
    }

    /// Puts the propagator `idx` at the end of the queue, unless it waits already.
    pub fn schedule(&mut self, idx: usize)
        requires
            old(self).wf(),
            idx < old(self).capacity(),
        ensures
            final(self).wf(),
            final(self).capacity() == old(self).capacity(),
            final(self)@ == if old(self)@.contains(idx) {
                old(self)@
            } else {
                old(self)@.push(idx)
            },
    {
        if !self.inside_queue[idx] {
            self.inside_queue.set(idx, true);
            self.queue.push_back(idx);
            assert(self@[old(self)@.len() as int] == idx);
            assert forall|p: usize| p < self.capacity() implies (#[trigger] self.marks()[p as int]
                <==> self@.contains(p)) by {
                if p != idx && old(self)@.contains(p) {
                    let k = choose|k: int| 0 <= k < old(self)@.len() && old(self)@[k] == p;
                    assert(self@[k] == p);
                }
            }
        }
    }

    /// Takes the propagator that has waited longest out of the queue; `None` if none waits.
    pub fn pop(&mut self) -> (next: Option<usize>)
        requires
            old(self).wf(),
        ensures
            final(self).wf(),
            final(self).capacity() == old(self).capacity(),
            match next {
                Some(idx) => {
                    &&& old(self)@.len() > 0
                    &&& idx == old(self)@[0]
                    &&& final(self)@ == old(self)@.drop_first()
                },
                None => old(self)@.len() == 0 && final(self)@ == old(self)@,
            },
    {
        let next = self.queue.pop_front();
        match next {
            Some(idx) => {
                self.inside_queue.set(idx, false);
                assert forall|p: usize| p < self.capacity() implies (
                #[trigger] self.marks()[p as int] <==> self@.contains(p)) by {
                    if p != idx && old(self)@.contains(p) {
                        let k = choose|k: int| 0 <= k < old(self)@.len() && old(self)@[k] == p;
                        assert(self@[k - 1] == p);
                    }
                }
            },
            None => {
                assert forall|p: usize| p < self.capacity() implies (
                #[trigger] self.marks()[p as int] <==> self@.contains(p)) by {
                    assert(old(self).marks()[p as int] <==> old(self)@.contains(p));
                }
            },
        }
        next
    }
}

} // verus!
