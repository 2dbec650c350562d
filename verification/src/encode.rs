//! Little-endian byte encodings for the values syscalls write through
//! translated pointers into a task's buffers.

use vstd::prelude::*;
use crate::task::TaskStatus;

verus! {

/// The eight little-endian bytes of a 64-bit value.
pub open spec fn le_bytes_64(v: u64) -> Seq<u8> {
    Seq::new(8, |i: int| ((v >> ((8 * i) as u64)) & 0xff) as u8)
}

/// The four little-endian bytes of a 32-bit value.
pub open spec fn le_bytes_32(v: u32) -> Seq<u8> {
    Seq::new(4, |i: int| ((v >> ((8 * i) as u32)) & 0xff) as u8)
}

/// The counters of `s` one after the other, each as its four little-endian
/// bytes.
pub open spec fn counters_bytes(s: Seq<u32>) -> Seq<u8>
    decreases s.len(),
{
    if s.len() == 0 {
        Seq::empty()
    } else {
        counters_bytes(s.drop_last()) + le_bytes_32(s.last())
    }
}

/// Encoding `n` counters takes `4 * n` bytes.
pub proof fn lemma_counters_bytes_len(s: Seq<u32>)
    ensures
        counters_bytes(s).len() == 4 * s.len(),
    decreases s.len(),
{
    if s.len() > 0 {
        lemma_counters_bytes_len(s.drop_last());
    }
}

/// The single byte a task status is reported as.
pub open spec fn status_code(s: TaskStatus) -> u8 {
    match s {
        TaskStatus::UnInit => 0,
        TaskStatus::Ready => 1,
        TaskStatus::Running => 2,
        TaskStatus::Exited => 3,
    }
}

/// Executable form of `status_code`.
pub fn status_byte(s: TaskStatus) -> (r: u8)
    ensures
        r == status_code(s),
{
    match s {
        TaskStatus::UnInit => 0,
        TaskStatus::Ready => 1,
        TaskStatus::Running => 2,
        TaskStatus::Exited => 3,
    }
}

/// Appends the eight little-endian bytes of `v`.
#[verifier::loop_isolation(false)]
pub fn push_le_64(out: &mut Vec<u8>, v: u64)
    ensures
        final(out)@ == old(out)@ + le_bytes_64(v),
{
    let mut i: usize = 0;
    while i < 8
        invariant
            0 <= i <= 8,
            out@ == old(out)@ + le_bytes_64(v).take(i as int),
        decreases 8 - i,
    {
        let b = ((v >> ((8 * i) as u64)) & 0xff) as u8;
        proof {
            assert(le_bytes_64(v).take(i as int).push(b) =~= le_bytes_64(v).take(i as int + 1));
        }
        out.push(b);
        i += 1;
    }
    proof {
        assert(le_bytes_64(v).take(8) =~= le_bytes_64(v));
    }
}

/// Appends the four little-endian bytes of `v`.
#[verifier::loop_isolation(false)]
pub fn push_le_32(out: &mut Vec<u8>, v: u32)
    ensures
        final(out)@ == old(out)@ + le_bytes_32(v),
{
    let mut i: usize = 0;
    while i < 4
        invariant
            0 <= i <= 4,
            out@ == old(out)@ + le_bytes_32(v).take(i as int),
        decreases 4 - i,
    {
        let b = ((v >> ((8 * i) as u32)) & 0xff) as u8;
        proof {
            assert(le_bytes_32(v).take(i as int).push(b) =~= le_bytes_32(v).take(i as int + 1));
        }
        out.push(b);
        i += 1;
    }
    proof {
        assert(le_bytes_32(v).take(4) =~= le_bytes_32(v));
    }
}

} // verus!
