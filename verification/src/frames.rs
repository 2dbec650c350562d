//! Physical frame allocator, modelled as an explicit pool of free frames.
//!
//! A frame is named by its physical page number (ppn).  The pool is a stack:
//! `alloc` hands out the most recently freed frame first.  Contracts about
//! which frames circulate are stated over the stack's multiset, so callers
//! can reason about frame ownership without caring about the stack order.

use vstd::prelude::*;
use vstd::multiset::Multiset;
use crate::config::PPN_LIMIT;

verus! {

/// Pool of currently free physical frames.
pub struct FrameAllocator {
    /// Physical page numbers of the free frames, used as a stack.
    pub free: Vec<usize>,
}

impl View for FrameAllocator {
    type V = Seq<usize>;

    open spec fn view(&self) -> Seq<usize> {
        self.free@
    }
}

impl FrameAllocator {
    /// Every frame in the pool is small enough to address a whole page of
    /// bytes inside `usize`.
    pub open spec fn wf(&self) -> bool {
        forall|i: int| 0 <= i < self@.len() ==> self@[i] < PPN_LIMIT
    }

    /// The frames currently free, regardless of the stack order.
    pub open spec fn frames(&self) -> Multiset<usize> {
        self@.to_multiset()
    }

    /// Builds a pool holding exactly the given frames.
    pub fn new(free: Vec<usize>) -> (r: Self)
        requires
            forall|i: int| 0 <= i < free@.len() ==> free@[i] < PPN_LIMIT,
        ensures
            r@ == free@,
            r.wf(),
    {
        FrameAllocator { free }
    }

    /// Number of free frames.
    pub fn len(&self) -> (r: usize)
        ensures
            r == self@.len(),
    {
        self.free.len()
    }

    /// Hands out one frame, or reports exhaustion and changes nothing.
    pub fn allocate(&mut self) -> (r: Option<usize>)
        requires
            old(self).wf(),
        ensures
            final(self).wf(),
            match r {
                Some(ppn) => {
                    &&& old(self)@.len() > 0
                    &&& ppn == old(self)@.last()
                    &&& ppn < PPN_LIMIT
                    &&& final(self)@ == old(self)@.drop_last()
                    &&& old(self).frames() == final(self).frames().insert(ppn)
                },
                None => old(self)@.len() == 0 && final(self)@ == old(self)@,
            },
    {
        let r = self.free.pop();
        proof {
            if let Some(ppn) = r {
                assert(old(self)@ =~= self@.push(ppn));
                old(self)@.to_multiset_ensures();
                self@.to_multiset_ensures();
            }
        }
        r
    }

    /// Returns one frame to the pool.
    pub fn release(&mut self, ppn: usize)
        requires
            old(self).wf(),
            ppn < PPN_LIMIT,
        ensures
            final(self).wf(),
            final(self)@ == old(self)@.push(ppn),
            final(self).frames() == old(self).frames().insert(ppn),
    {
        self.free.push(ppn);
        proof {
            old(self)@.to_multiset_ensures();
        }
    }
}

} // verus!
