//! Region manager: `map_area` / `unmap_area` over a task's page table.
//!
//! A request names a byte range `start .. start + length`; the effective
//! range is the covering sequence of whole pages.  Regions are tracked
//! page-granularly, so "the mapped regions" and "the installed page-table
//! entries" are one and the same set, and no two regions of a task can
//! overlap.  All validation happens before any mutation: a refused request
//! changes neither the page table nor the frame pool.

use vstd::prelude::*;
use vstd::multiset::Multiset;
use crate::config::{
    lemma_page_range_fits, lemma_pages_of_split, page_aligned, pages_of, vpn_of, PAGE_SIZE,
};
use crate::frames::FrameAllocator;
use crate::page_table::{PageMapping, PageTable};

verus! {

/// Why an `mmap` request was refused.
#[derive(Clone, Copy, PartialEq, Eq, Structural, Debug)]
pub enum MmapError {
    /// The start address is not a multiple of the page size.
    MisalignedAddress,
    /// Permission bits outside the R/W/X mask are set, or none inside it is.
    InvalidPermission,
    /// Some page of the rounded-up range is already mapped for the caller.
    RegionConflict,
    /// The frame pool holds fewer free frames than the range needs.
    OutOfMemory,
}

/// Why a `munmap` request was refused.
#[derive(Clone, Copy, PartialEq, Eq, Structural, Debug)]
pub enum MunmapError {
    /// The start address is not a multiple of the page size.
    MisalignedAddress,
    /// Some page of the rounded-up range is not currently mapped.
    RegionNotMapped,
}

/// The permission bits of a request: nothing outside the R/W/X mask, and at
/// least one bit inside it (a region nobody could access is refused).
pub open spec fn perm_bits_valid(port: usize) -> bool {
    port & !0x7 == 0 && port & 0x7 != 0
}

/// `vpn` lies in the page range covering `start .. start + len`.
pub open spec fn vpn_in_range(vpn: usize, start: usize, len: usize) -> bool {
    vpn_of(start) <= vpn < vpn_of(start) + pages_of(len)
}

/// No page of the range is currently mapped.
pub open spec fn range_free(pt: Map<usize, PageMapping>, start: usize, len: usize) -> bool {
    forall|vpn: usize| #[trigger] vpn_in_range(vpn, start, len) ==> !pt.contains_key(vpn)
}

/// Every page of the range is currently mapped.
pub open spec fn range_mapped(pt: Map<usize, PageMapping>, start: usize, len: usize) -> bool {
    forall|vpn: usize| #[trigger] vpn_in_range(vpn, start, len) ==> pt.contains_key(vpn)
}

/// The validation that `map_area` performs, with the error it reports first;
/// `None` means the request is accepted.
pub open spec fn mmap_check(
    pt: Map<usize, PageMapping>,
    free_frames: int,
    start: usize,
    len: usize,
    port: usize,
) -> Option<MmapError> {
    if !page_aligned(start) {
        Some(MmapError::MisalignedAddress)
    } else if !perm_bits_valid(port) {
        Some(MmapError::InvalidPermission)
    } else if !range_free(pt, start, len) {
        Some(MmapError::RegionConflict)
    } else if free_frames < pages_of(len) {
        Some(MmapError::OutOfMemory)
    } else {
        None
    }
}

/// The validation that `unmap_area` performs; `None` means accepted.
pub open spec fn munmap_check(
    pt: Map<usize, PageMapping>,
    start: usize,
    len: usize,
) -> Option<MunmapError> {
    if !page_aligned(start) {
        Some(MunmapError::MisalignedAddress)
    } else if !range_mapped(pt, start, len) {
        Some(MunmapError::RegionNotMapped)
    } else {
        None
    }
}

/// The frames backing the first `n` pages of the range starting at page
/// `vpn0`, in ascending page order.
pub open spec fn frame_seq(pt: Map<usize, PageMapping>, vpn0: int, n: int) -> Seq<usize> {
    Seq::new(n as nat, |i: int| pt[(vpn0 + i) as usize].ppn)
}

/// The frames backing the whole page range of `start .. start + len`,
/// regardless of order.
pub open spec fn range_frames(pt: Map<usize, PageMapping>, start: usize, len: usize) -> Multiset<
    usize,
> {
    frame_seq(pt, vpn_of(start), pages_of(len)).to_multiset()
}

/// How a successful `map_area` changes the page table: every page of the
/// range is now mapped with exactly the requested permissions, and every
/// other page is untouched.
pub open spec fn mmap_post(
    pt0: Map<usize, PageMapping>,
    pt1: Map<usize, PageMapping>,
    start: usize,
    len: usize,
    port: usize,
) -> bool {
    &&& forall|vpn: usize| #[trigger]
        vpn_in_range(vpn, start, len) ==> pt1.contains_key(vpn) && pt1[vpn].perm == port
    &&& forall|vpn: usize|
        !vpn_in_range(vpn, start, len) ==> (#[trigger] pt1.contains_key(vpn)
            <==> pt0.contains_key(vpn)) && (pt0.contains_key(vpn) ==> pt1[vpn] == pt0[vpn])
}

/// How a successful `unmap_area` changes the page table: every page of the
/// range is now unmapped, and every other page is untouched.
pub open spec fn munmap_post(
    pt0: Map<usize, PageMapping>,
    pt1: Map<usize, PageMapping>,
    start: usize,
    len: usize,
) -> bool {
    &&& forall|vpn: usize| #[trigger] vpn_in_range(vpn, start, len) ==> !pt1.contains_key(vpn)
    &&& forall|vpn: usize|
        !vpn_in_range(vpn, start, len) ==> (#[trigger] pt1.contains_key(vpn)
            <==> pt0.contains_key(vpn)) && (pt0.contains_key(vpn) ==> pt1[vpn] == pt0[vpn])
}

/// The page ranges of two requests share at least one page.
pub open spec fn ranges_overlap(s1: usize, l1: usize, s2: usize, l2: usize) -> bool {
    exists|vpn: usize| #[trigger] vpn_in_range(vpn, s1, l1) && vpn_in_range(vpn, s2, l2)
}

/// Law: a successful `map_area` followed immediately by `unmap_area` of the
/// same `start`/`length` is owed success, and the pair leaves the task's
/// mapped pages and the pool of free frames exactly as they were before.
///
/// The states are related exactly as the two functions' contracts relate
/// them: `pt0`/`pool0` before the pair, `pt1`/`pool1` between the calls,
/// `pt2`/`pool2` after it (pools as their free-frame multisets).
pub proof fn lemma_map_unmap_round_trip(
    pt0: Map<usize, PageMapping>,
    pt1: Map<usize, PageMapping>,
    pt2: Map<usize, PageMapping>,
    pool0: Multiset<usize>,
    pool1: Multiset<usize>,
    pool2: Multiset<usize>,
    free0: int,
    start: usize,
    len: usize,
    port: usize,
)
    requires
        mmap_check(pt0, free0, start, len, port) is None,
        mmap_post(pt0, pt1, start, len, port),
        pool0 == pool1.add(range_frames(pt1, start, len)),
        munmap_post(pt1, pt2, start, len),
        pool2 == pool1.add(range_frames(pt1, start, len)),
    ensures
        munmap_check(pt1, start, len) is None,
        pt2 == pt0,
        pool2 == pool0,
{
    assert(range_mapped(pt1, start, len));
    assert forall|vpn: usize| #[trigger]
        pt0.contains_key(vpn) implies pt2.contains_key(vpn) && pt2[vpn] == pt0[vpn] by {
        if vpn_in_range(vpn, start, len) {
            assert(!pt0.contains_key(vpn));
        }
    }
    assert forall|vpn: usize| #[trigger] pt2.contains_key(vpn) implies pt0.contains_key(vpn) by {
        if vpn_in_range(vpn, start, len) {
            assert(!pt2.contains_key(vpn));
        }
    }
    assert(pt2 =~= pt0);
}

/// Law: after a successful `map_area`, a further request whose page range
/// overlaps the freshly mapped one is refused, while a request for a
/// disjoint range that passes its own validation is accepted.
pub proof fn lemma_mmap_conflict_and_disjoint(
    pt0: Map<usize, PageMapping>,
    pt1: Map<usize, PageMapping>,
    free0: int,
    start1: usize,
    len1: usize,
    port1: usize,
    free1: int,
    start2: usize,
    len2: usize,
    port2: usize,
)
    requires
        mmap_check(pt0, free0, start1, len1, port1) is None,
        mmap_post(pt0, pt1, start1, len1, port1),
    ensures
        ranges_overlap(start1, len1, start2, len2) ==> mmap_check(
            pt1,
            free1,
            start2,
            len2,
            port2,
        ) is Some,
        page_aligned(start2) && perm_bits_valid(port2) && !ranges_overlap(
            start1,
            len1,
            start2,
            len2,
        ) && range_free(pt0, start2, len2) && free1 >= pages_of(len2) ==> mmap_check(
            pt1,
            free1,
            start2,
            len2,
            port2,
        ) is None,
{
    if ranges_overlap(start1, len1, start2, len2) {
        let w = choose|vpn: usize| #[trigger]
            vpn_in_range(vpn, start1, len1) && vpn_in_range(vpn, start2, len2);
        assert(pt1.contains_key(w));
        assert(!range_free(pt1, start2, len2));
    }
    if page_aligned(start2) && perm_bits_valid(port2) && !ranges_overlap(start1, len1, start2, len2)
        && range_free(pt0, start2, len2) && free1 >= pages_of(len2) {
        assert forall|vpn: usize| #[trigger]
            vpn_in_range(vpn, start2, len2) implies !pt1.contains_key(vpn) by {
            if vpn_in_range(vpn, start1, len1) {
                assert(ranges_overlap(start1, len1, start2, len2));
            }
            assert(!pt0.contains_key(vpn));
        }
    }
}

proof fn lemma_insert_add_swap(a: Multiset<usize>, b: Multiset<usize>, x: usize)
    ensures
        a.insert(x).add(b) == a.add(b.insert(x)),
{
    assert(a.insert(x).add(b) =~= a.add(b.insert(x)));
}

proof fn lemma_add_insert_assoc(a: Multiset<usize>, b: Multiset<usize>, x: usize)
    ensures
        a.add(b).insert(x) == a.add(b.insert(x)),
{
    assert(a.add(b).insert(x) =~= a.add(b.insert(x)));
}

proof fn lemma_add_empty_seq(a: Multiset<usize>, s: Seq<usize>)
    requires
        s.len() == 0,
    ensures
        a.add(s.to_multiset()) == a,
{
    s.to_multiset_ensures();
    assert forall|y: usize| a.add(s.to_multiset()).count(y) == a.count(y) by {
        assert(!s.contains(y));
        assert(s.to_multiset().count(y) == 0);
    }
    assert(a.add(s.to_multiset()) =~= a);
}

/// Maps the page range covering `start .. start + len` with permissions
/// `port`, backing each page with a frame from `pool`.  All validation
/// happens first: a refused request mutates nothing, and a frame leaves the
/// pool only for a freshly installed entry.
#[verifier::loop_isolation(false)]
pub fn map_area(
    pt: &mut PageTable,
    pool: &mut FrameAllocator,
    start: usize,
    len: usize,
    port: usize,
) -> (r: Result<(), MmapError>)
    requires
        old(pt).wf(),
        old(pool).wf(),
    ensures
        final(pt).wf(),
        final(pool).wf(),
        match r {
            Ok(()) => {
                &&& mmap_check(old(pt)@, old(pool)@.len() as int, start, len, port) is None
                &&& mmap_post(old(pt)@, final(pt)@, start, len, port)
                &&& old(pool).frames() == final(pool).frames().add(
                    range_frames(final(pt)@, start, len),
                )
                &&& final(pool)@.len() + pages_of(len) == old(pool)@.len()
            },
            Err(e) => {
                &&& Some(e) == mmap_check(old(pt)@, old(pool)@.len() as int, start, len, port)
                &&& final(pt)@ == old(pt)@
                &&& final(pool)@ == old(pool)@
            },
        },
{
    if start % PAGE_SIZE != 0 {
        return Err(MmapError::MisalignedAddress);
    }
    if port & !0x7 != 0 || port & 0x7 == 0 {
        return Err(MmapError::InvalidPermission);
    }
    proof {
        lemma_page_range_fits(start, len);
        lemma_pages_of_split(len);
    }
    let vpn0 = start / PAGE_SIZE;
    let npages = len / PAGE_SIZE + if len % PAGE_SIZE != 0 { 1 } else { 0 };

    let mut i: usize = 0;
    while i < npages
        invariant
            0 <= i <= npages,
            vpn0 == vpn_of(start),
            npages == pages_of(len),
            vpn0 + npages < usize::MAX,
            forall|vpn: usize| vpn0 <= vpn < vpn0 + i ==> !(#[trigger] pt@.contains_key(vpn)),
        decreases npages - i,
    {
        let vpn = vpn0 + i;
        if pt.lookup(vpn).is_some() {
            proof {
                assert(vpn_in_range(vpn, start, len));
            }
            return Err(MmapError::RegionConflict);
        }
        i += 1;
    }
    proof {
        assert forall|vpn: usize| #[trigger]
            vpn_in_range(vpn, start, len) implies !pt@.contains_key(vpn) by {
            assert(vpn0 <= vpn < vpn0 + npages);
        }
        assert(range_free(pt@, start, len));
    }

    if pool.len() < npages {
        return Err(MmapError::OutOfMemory);
    }

    let ghost pt0 = pt@;
    let ghost pool0 = pool@;
    proof {
        lemma_add_empty_seq(pool.frames(), frame_seq(pt@, vpn0 as int, 0));
    }
    let mut i: usize = 0;
    while i < npages
        invariant
            0 <= i <= npages,
            vpn0 == vpn_of(start),
            npages == pages_of(len),
            vpn0 + npages < usize::MAX,
            pt.wf(),
            pool.wf(),
            range_free(pt0, start, len),
            npages <= pool0.len(),
            pool@.len() + i == pool0.len(),
            pool0.to_multiset() == pool.frames().add(
                frame_seq(pt@, vpn0 as int, i as int).to_multiset(),
            ),
            forall|vpn: usize|
                vpn0 <= vpn < vpn0 + i ==> #[trigger] pt@.contains_key(vpn) && pt@[vpn].perm
                    == port,
            forall|vpn: usize|
                !(vpn0 <= vpn < vpn0 + i) ==> (#[trigger] pt@.contains_key(vpn)
                    <==> pt0.contains_key(vpn)) && (pt0.contains_key(vpn) ==> pt@[vpn] == pt0[vpn]),
        decreases npages - i,
    {
        let ghost pt_before = pt@;
        let f = match pool.allocate() {
            Some(f) => f,
            None => vstd::pervasive::unreached(),
        };
        let vpn = vpn0 + i;
        proof {
            assert(vpn_in_range(vpn, start, len));
        }
        pt.map_page(vpn, f, port);
        proof {
            let gi = i as int;
            let old_seq = frame_seq(pt_before, vpn0 as int, gi);
            let new_seq = frame_seq(pt@, vpn0 as int, gi + 1);
            assert forall|j: int| 0 <= j < gi implies new_seq[j] == old_seq[j] by {
                assert((vpn0 + j) as usize != vpn);
            }
            assert(new_seq =~= old_seq.push(f));
            old_seq.to_multiset_ensures();
            lemma_insert_add_swap(pool.frames(), old_seq.to_multiset(), f);
        }
        i += 1;
    }
    proof {
        assert forall|vpn: usize| #[trigger]
            vpn_in_range(vpn, start, len) implies pt@.contains_key(vpn) && pt@[vpn].perm
            == port by {
            assert(vpn0 <= vpn < vpn0 + npages);
        }
        assert(frame_seq(pt@, vpn0 as int, npages as int) =~= frame_seq(
            pt@,
            vpn_of(start),
            pages_of(len),
        ));
        assert(pool0.to_multiset() == pool.frames().add(range_frames(pt@, start, len)));
    }
    Ok(())
}

/// Unmaps the page range covering `start .. start + len`, returning every
/// backing frame to `pool`.  The whole range must currently be mapped; a
/// refused request mutates nothing.
#[verifier::loop_isolation(false)]
pub fn unmap_area(
    pt: &mut PageTable,
    pool: &mut FrameAllocator,
    start: usize,
    len: usize,
) -> (r: Result<(), MunmapError>)
    requires
        old(pt).wf(),
        old(pool).wf(),
    ensures
        final(pt).wf(),
        final(pool).wf(),
        match r {
            Ok(()) => {
                &&& munmap_check(old(pt)@, start, len) is None
                &&& munmap_post(old(pt)@, final(pt)@, start, len)
                &&& final(pool).frames() == old(pool).frames().add(
                    range_frames(old(pt)@, start, len),
                )
                &&& final(pool)@.len() == old(pool)@.len() + pages_of(len)
            },
            Err(e) => {
                &&& Some(e) == munmap_check(old(pt)@, start, len)
                &&& final(pt)@ == old(pt)@
                &&& final(pool)@ == old(pool)@
            },
        },
{
    if start % PAGE_SIZE != 0 {
        return Err(MunmapError::MisalignedAddress);
    }
    proof {
        lemma_page_range_fits(start, len);
        lemma_pages_of_split(len);
    }
    let vpn0 = start / PAGE_SIZE;
    let npages = len / PAGE_SIZE + if len % PAGE_SIZE != 0 { 1 } else { 0 };

    let mut i: usize = 0;
    while i < npages
        invariant
            0 <= i <= npages,
            vpn0 == vpn_of(start),
            npages == pages_of(len),
            vpn0 + npages < usize::MAX,
            forall|vpn: usize| vpn0 <= vpn < vpn0 + i ==> #[trigger] pt@.contains_key(vpn),
        decreases npages - i,
    {
        let vpn = vpn0 + i;
        if pt.lookup(vpn).is_none() {
            proof {
                assert(vpn_in_range(vpn, start, len));
            }
            return Err(MunmapError::RegionNotMapped);
        }
        i += 1;
    }
    proof {
        assert forall|vpn: usize| #[trigger]
            vpn_in_range(vpn, start, len) implies pt@.contains_key(vpn) by {
            assert(vpn0 <= vpn < vpn0 + npages);
        }
        assert(range_mapped(pt@, start, len));
    }

    let ghost pt0 = pt@;
    let ghost pool0 = pool@;
    proof {
        lemma_add_empty_seq(pool.frames(), frame_seq(pt0, vpn0 as int, 0));
    }
    let mut i: usize = 0;
    while i < npages
        invariant
            0 <= i <= npages,
            vpn0 == vpn_of(start),
            npages == pages_of(len),
            vpn0 + npages < usize::MAX,
            pt.wf(),
            pool.wf(),
            range_mapped(pt0, start, len),
            pool@.len() == pool0.len() + i,
            pool.frames() == pool0.to_multiset().add(
                frame_seq(pt0, vpn0 as int, i as int).to_multiset(),
            ),
            forall|vpn: usize| vpn0 <= vpn < vpn0 + i ==> !(#[trigger] pt@.contains_key(vpn)),
            forall|vpn: usize|
                !(vpn0 <= vpn < vpn0 + i) ==> (#[trigger] pt@.contains_key(vpn)
                    <==> pt0.contains_key(vpn)) && (pt0.contains_key(vpn) ==> pt@[vpn] == pt0[vpn]),
        decreases npages - i,
    {
        let vpn = vpn0 + i;
        proof {
            assert(vpn_in_range(vpn, start, len));
            assert(pt0.contains_key(vpn));
            assert(pt@.contains_key(vpn));
        }
        let pm = pt.unmap_page(vpn);
        pool.release(pm.ppn);
        proof {
            let gi = i as int;
            let old_seq = frame_seq(pt0, vpn0 as int, gi);
            let new_seq = frame_seq(pt0, vpn0 as int, gi + 1);
            assert(new_seq =~= old_seq.push(pm.ppn));
            old_seq.to_multiset_ensures();
            lemma_add_insert_assoc(pool0.to_multiset(), old_seq.to_multiset(), pm.ppn);
        }
        i += 1;
    }
    proof {
        assert(frame_seq(pt0, vpn0 as int, npages as int) =~= frame_seq(
            pt0,
            vpn_of(start),
            pages_of(len),
        ));
        assert(pool.frames() == pool0.to_multiset().add(range_frames(pt0, start, len)));
        assert(munmap_check(pt0, start, len) is None);
        assert forall|vpn: usize| #[trigger]
            vpn_in_range(vpn, start, len) implies !pt@.contains_key(vpn) by {
            assert(vpn0 <= vpn < vpn0 + npages);
        }
        assert forall|vpn: usize|
            !vpn_in_range(vpn, start, len) implies (#[trigger] pt@.contains_key(vpn)
                <==> pt0.contains_key(vpn)) && (pt0.contains_key(vpn) ==> pt@[vpn]
                == pt0[vpn]) by {
            assert(!(vpn0 <= vpn < vpn0 + npages));
        }
        assert(munmap_post(pt0, pt@, start, len));
        assert(pool@.len() == pool0.len() + pages_of(len));
    }
    Ok(())
}

} // verus!
