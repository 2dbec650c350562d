//! Machine constants of the paging hardware and helpers on page arithmetic.

use vstd::prelude::*;
use vstd::arithmetic::div_mod::{
    lemma_div_is_ordered, lemma_fundamental_div_mod, lemma_fundamental_div_mod_converse,
};

verus! {

/// Size of one page and of one physical frame, in bytes.
pub const PAGE_SIZE: usize = 4096;

/// Number of syscall identifiers a task keeps invocation counters for.
pub const MAX_SYSCALL_NUM: usize = 500;

/// Exclusive upper bound on physical page numbers: any frame below it can be
/// turned into a byte address `ppn * PAGE_SIZE + offset` (offset < PAGE_SIZE)
/// without overflowing `usize`.
pub const PPN_LIMIT: usize = usize::MAX / PAGE_SIZE;

/// A virtual or physical byte address is page-aligned when it is a multiple
/// of the page size.
pub open spec fn page_aligned(a: usize) -> bool {
    a % PAGE_SIZE == 0
}

/// Virtual page number containing byte address `a`.
pub open spec fn vpn_of(a: usize) -> int {
    a as int / PAGE_SIZE as int
}

/// Number of whole pages that cover `len` bytes (rounded up).
pub open spec fn pages_of(len: usize) -> int {
    (len + PAGE_SIZE - 1) / PAGE_SIZE as int
}

/// Byte offset of address `a` inside its page.
pub open spec fn page_offset(a: usize) -> int {
    a as int % PAGE_SIZE as int
}

/// Page numbers derived from `usize` addresses and lengths are so small that
/// a whole request's page range stays strictly inside the `usize` range.
pub proof fn lemma_page_range_fits(start: usize, len: usize)
    ensures
        0 <= vpn_of(start),
        0 <= pages_of(len),
        vpn_of(start) + pages_of(len) < usize::MAX,
{
    let p = PAGE_SIZE as int;
    lemma_div_is_ordered(start as int, usize::MAX as int, p);
    lemma_div_is_ordered(len as int, usize::MAX as int, p);
    lemma_fundamental_div_mod(usize::MAX as int, p);
    let q = usize::MAX as int / p;
    // pages_of(len) <= len / p + 1
    lemma_fundamental_div_mod(len as int, p);
    let q0 = len as int / p;
    let r0 = len as int % p;
    if r0 == 0 {
        lemma_fundamental_div_mod_converse(len + p - 1, p, q0, p - 1);
    } else {
        lemma_fundamental_div_mod_converse(len + p - 1, p, q0 + 1, r0 - 1);
    }
    assert(q >= 1) by {
        lemma_div_is_ordered(p, usize::MAX as int, p);
        lemma_fundamental_div_mod_converse(p, p, 1, 0);
    }
    assert(2 * q + 2 < p * q) by (nonlinear_arith)
        requires q >= 1, p == 4096,
    ;
    assert(p * q <= usize::MAX as int);
}

/// The rounded-up page count equals the truncated quotient, plus one when
/// the length is no exact multiple of the page size.
pub proof fn lemma_pages_of_split(len: usize)
    ensures
        pages_of(len) == len as int / (PAGE_SIZE as int) + if len as int % (PAGE_SIZE as int)
            != 0 {
            1int
        } else {
            0int
        },
{
    let p = PAGE_SIZE as int;
    lemma_fundamental_div_mod(len as int, p);
    let q0 = len as int / p;
    let r0 = len as int % p;
    if r0 == 0 {
        lemma_fundamental_div_mod_converse(len + p - 1, p, q0, p - 1);
    } else {
        lemma_fundamental_div_mod_converse(len + p - 1, p, q0 + 1, r0 - 1);
    }
}

/// A physical page number below `PPN_LIMIT` leaves room for a whole page of
/// byte addresses above `ppn * PAGE_SIZE`.
pub proof fn lemma_ppn_addr_fits(ppn: usize)
    requires
        ppn < PPN_LIMIT,
    ensures
        ppn * PAGE_SIZE + PAGE_SIZE <= usize::MAX,
{
    let p = PAGE_SIZE as int;
    let q = usize::MAX as int / p;
    lemma_fundamental_div_mod(usize::MAX as int, p);
    assert((ppn + 1) * p <= q * p) by (nonlinear_arith)
        requires ppn + 1 <= q, p > 0,
    ;
    assert(ppn * p + p == (ppn + 1) * p) by (nonlinear_arith);
}

} // verus!
