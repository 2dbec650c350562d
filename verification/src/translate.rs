//! User-pointer translation.
//!
//! A pointer a task hands to a syscall is meaningful only in that task's
//! address space.  `translate` performs the raw table walk for a single byte
//! address.  `translate_slot` is the checked form: it hands out a capability
//! to exactly `n` bytes at a translated location only after checking that the
//! page is mapped with the required permissions and that the requested bytes
//! do not run off the page, so a holder of a `UserSlot` never needs to be
//! trusted about either.  Physical memory itself is a byte vector indexed by
//! `ppn * PAGE_SIZE + offset`.

use vstd::prelude::*;
use crate::config::{lemma_ppn_addr_fits, page_offset, vpn_of, PAGE_SIZE};
use crate::page_table::{PageMapping, PageTable};

verus! {

/// Permission bit a page must carry to be read through a translated pointer.
pub const PERM_R: usize = 0x1;

/// Permission bit a page must carry to be written through a translated pointer.
pub const PERM_W: usize = 0x2;

/// Permission bit a page must carry for instruction fetches.
pub const PERM_X: usize = 0x4;

/// Physical byte address of the byte that user address `va` names: the
/// backing frame's first byte plus the in-page offset of `va`.
pub open spec fn phys_addr_of(pt: Map<usize, PageMapping>, va: usize) -> int {
    pt[vpn_of(va) as usize].ppn * PAGE_SIZE + page_offset(va)
}

/// The page of `va` is mapped.
pub open spec fn translatable(pt: Map<usize, PageMapping>, va: usize) -> bool {
    pt.contains_key(vpn_of(va) as usize)
}

/// `n` bytes at user address `va` may be accessed with permissions `req`:
/// the page is mapped, carries every bit of `req`, and the `n` bytes lie
/// inside that one page.
pub open spec fn slot_ok(pt: Map<usize, PageMapping>, va: usize, n: usize, req: usize) -> bool {
    &&& translatable(pt, va)
    &&& pt[vpn_of(va) as usize].perm & req == req
    &&& page_offset(va) + n <= PAGE_SIZE
}

/// Capability to read or write exactly `len` physical bytes starting at
/// `base`; handed out by `translate_slot` only for checked, mapped locations.
#[derive(Clone, Copy, PartialEq, Eq, Structural, Debug)]
pub struct UserSlot {
    /// First physical byte address of the window.
    pub base: usize,
    /// Number of bytes the holder may access.
    pub len: usize,
}

/// Raw table walk for one byte address: the physical address of the same
/// byte, or `None` when the page is unmapped.  Works for any address, not
/// only page-aligned ones: the in-page offset carries over unchanged.
pub fn translate(pt: &PageTable, va: usize) -> (r: Option<usize>)
    requires
        pt.wf(),
    ensures
        match r {
            Some(pa) => translatable(pt@, va) && pa == phys_addr_of(pt@, va),
            None => !translatable(pt@, va),
        },
{
    let vpn = va / PAGE_SIZE;
    match pt.lookup(vpn) {
        Some(pm) => {
            proof {
                lemma_ppn_addr_fits(pm.ppn);
            }
            Some(pm.ppn * PAGE_SIZE + va % PAGE_SIZE)
        },
        None => None,
    }
}

/// Checked translation: a capability for `n` bytes at `va`, or `None` when
/// the page is unmapped, lacks a bit of `req`, or the bytes would cross the
/// page's end.
pub fn translate_slot(pt: &PageTable, va: usize, n: usize, req: usize) -> (r: Option<UserSlot>)
    requires
        pt.wf(),
        n <= PAGE_SIZE,
    ensures
        match r {
            Some(s) => {
                &&& slot_ok(pt@, va, n, req)
                &&& s.base == phys_addr_of(pt@, va)
                &&& s.len == n
                &&& s.base + s.len <= usize::MAX
            },
            None => !slot_ok(pt@, va, n, req),
        },
{
    let vpn = va / PAGE_SIZE;
    let offset = va % PAGE_SIZE;
    match pt.lookup(vpn) {
        Some(pm) => {
            if pm.perm & req != req {
                return None;
            }
            if n > PAGE_SIZE - offset {
                return None;
            }
            proof {
                lemma_ppn_addr_fits(pm.ppn);
            }
            Some(UserSlot { base: pm.ppn * PAGE_SIZE + offset, len: n })
        },
        None => None,
    }
}

/// Writes `data` through a slot.  The write happens, and succeeds, exactly
/// when `data` fills the slot and the slot lies inside physical memory;
/// nothing outside the slot's window changes.
#[verifier::loop_isolation(false)]
pub fn write_at(mem: &mut Vec<u8>, slot: &UserSlot, data: &Vec<u8>) -> (r: bool)
    requires
        slot.base + slot.len <= usize::MAX,
    ensures
        r <==> (slot.base + slot.len <= old(mem)@.len() && data@.len() == slot.len),
        r ==> final(mem)@ == old(mem)@.subrange(0, slot.base as int).add(data@).add(
            old(mem)@.skip(slot.base + slot.len),
        ),
        !r ==> final(mem)@ == old(mem)@,
{
    if data.len() != slot.len {
        return false;
    }
    if slot.len > mem.len() || slot.base > mem.len() - slot.len {
        return false;
    }
    let mut i: usize = 0;
    while i < slot.len
        invariant
            0 <= i <= slot.len,
            slot.base + slot.len <= mem@.len(),
            data@.len() == slot.len,
            mem@.len() == old(mem)@.len(),
            forall|k: int| 0 <= k < i ==> mem@[slot.base + k] == data@[k],
            forall|k: int|
                0 <= k < mem@.len() && !(slot.base <= k < slot.base + i) ==> mem@[k] == old(
                    mem,
                )@[k],
        decreases slot.len - i,
    {
        let b = data[i];
        mem.set(slot.base + i, b);
        i += 1;
    }
    proof {
        assert(mem@ =~= old(mem)@.subrange(0, slot.base as int).add(data@).add(
            old(mem)@.skip(slot.base + slot.len),
        ));
    }
    true
}

/// Reads the slot's window out of physical memory, or `None` when the slot
/// lies outside it.
#[verifier::loop_isolation(false)]
pub fn read_at(mem: &Vec<u8>, slot: &UserSlot) -> (r: Option<Vec<u8>>)
    requires
        slot.base + slot.len <= usize::MAX,
    ensures
        match r {
            Some(v) => slot.base + slot.len <= mem@.len() && v@ == mem@.subrange(
                slot.base as int,
                slot.base + slot.len,
            ),
            None => slot.base + slot.len > mem@.len(),
        },
{
    if slot.len > mem.len() || slot.base > mem.len() - slot.len {
        return None;
    }
    let mut v: Vec<u8> = Vec::new();
    let mut i: usize = 0;
    while i < slot.len
        invariant
            0 <= i <= slot.len,
            slot.base + slot.len <= mem@.len(),
            v@.len() == i,
            forall|k: int| 0 <= k < i ==> v@[k] == mem@[slot.base + k],
        decreases slot.len - i,
    {
        let b = mem[slot.base + i];
        v.push(b);
        i += 1;
    }
    proof {
        assert(v@ =~= mem@.subrange(slot.base as int, slot.base + slot.len));
    }
    Some(v)
}

} // verus!
