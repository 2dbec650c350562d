//! Per-task page table: virtual page number -> physical frame + permissions.
//!
//! One entry maps one virtual page to one physical frame together with the
//! permission bits the page was mapped with.  The table is the single source
//! of truth for what is mapped: region bookkeeping is page-granular, so the
//! invariant "the mapped regions exactly mirror the installed entries" holds
//! by construction.

use std::collections::HashMap;
use vstd::prelude::*;
use crate::config::PPN_LIMIT;

verus! {

/// What one present page-table entry says about its virtual page.
#[derive(Clone, Copy, PartialEq, Eq, Structural, Debug)]
pub struct PageMapping {
    /// Physical page number of the backing frame.
    pub ppn: usize,
    /// Permission bits the page was mapped with (R/W/X mask).
    pub perm: usize,
}

/// Page table of one task's address space.
pub struct PageTable {
    /// Present entries, keyed by virtual page number.
    pub entries: HashMap<usize, PageMapping>,
}

impl View for PageTable {
    type V = Map<usize, PageMapping>;

    open spec fn view(&self) -> Map<usize, PageMapping> {
        self.entries@
    }
}

impl PageTable {
    /// Every installed frame number is small enough that any byte address
    /// inside the frame fits in `usize`.
    pub open spec fn wf(&self) -> bool {
        forall|vpn: usize| #[trigger] self@.contains_key(vpn) ==> self@[vpn].ppn < PPN_LIMIT
    }

    /// An empty address space: nothing is mapped.
    pub fn new() -> (r: Self)
        ensures
            r@ == Map::<usize, PageMapping>::empty(),
            r.wf(),
    {
        PageTable { entries: HashMap::new() }
    }

    /// Installs an entry for a page that is not currently mapped.
    pub fn map_page(&mut self, vpn: usize, ppn: usize, perm: usize)
        requires
            old(self).wf(),
            !old(self)@.contains_key(vpn),
            ppn < PPN_LIMIT,
        ensures
            final(self).wf(),
            final(self)@ == old(self)@.insert(vpn, (PageMapping { ppn, perm })),
    {
        self.entries.insert(vpn, PageMapping { ppn, perm });
    }

    /// Invalidates the entry of a currently mapped page and returns it, so
    /// the caller can give the backing frame back to the allocator.
    pub fn unmap_page(&mut self, vpn: usize) -> (r: PageMapping)
        requires
            old(self).wf(),
            old(self)@.contains_key(vpn),
        ensures
            final(self).wf(),
            r == old(self)@[vpn],
            final(self)@ == old(self)@.remove(vpn),
    {
        let r = self.entries.remove(&vpn);
        match r {
            Some(pm) => pm,
            None => vstd::pervasive::unreached(),
        }
    }

    /// Table walk for one page: the entry of `vpn`, if the page is mapped.
    pub fn lookup(&self, vpn: usize) -> (r: Option<PageMapping>)
        ensures
            match r {
                Some(pm) => self@.contains_key(vpn) && pm == self@[vpn],
                None => !self@.contains_key(vpn),
            },
    {
        match self.entries.get(&vpn) {
            Some(pm) => Some(*pm),
            None => None,
        }
    }

    /// Number of currently mapped pages.
    pub fn mapped_pages(&self) -> (r: usize)
        ensures
            r == self@.dom().len(),
    {
        self.entries.len()
    }
}

} // verus!
