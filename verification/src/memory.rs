//! The bump arena that backs dynamic allocation: a monotonic index over a
//! fixed region of memory, aligned per request, with no reclamation.
//!
//! The region itself lives outside this crate; the allocator only does the
//! address arithmetic, so every property of it is verified here.

use vstd::prelude::*;
use vstd::arithmetic::div_mod::lemma_small_mod;

verus! {

/// Rounds `addr` up to the next multiple of `align` (`align > 0`).
pub open spec fn spec_align_up(addr: int, align: int) -> int {
    addr + ((align - addr % align) % align)
}

/// The padding chosen by the allocator lands exactly on `spec_align_up`.
proof fn lemma_align_pad(c: int, a: int, pad: int)
    requires
        a > 0,
        c >= 0,
        pad == if c % a == 0 { 0int } else { a - c % a },
    ensures
        pad == (a - c % a) % a,
        0 <= pad < a,
        (c + pad) % a == 0,
        c + pad == spec_align_up(c, a),
{
    let r = c % a;
    vstd::arithmetic::div_mod::lemma_mod_bound(c, a);
    vstd::arithmetic::div_mod::lemma_fundamental_div_mod(c, a);
    if r == 0 {
        vstd::arithmetic::div_mod::lemma_mod_self_0(a);
        vstd::arithmetic::div_mod::lemma_mod_multiples_basic(c / a, a);
    } else {
        lemma_small_mod((a - r) as nat, a as nat);
        assert(c + pad == a * (c / a + 1)) by {
            assert(a * (c / a + 1) == a * (c / a) + a) by (nonlinear_arith);
        }
        vstd::arithmetic::div_mod::lemma_mod_multiples_basic(c / a + 1, a);
    }
}

/// A monotonic bump allocator over the region `[base, base + size)`.
///
/// `index` is the offset of the first byte never handed out; it only grows.
pub struct Allocator {
    pub base: usize,
    pub size: usize,
    pub index: usize,
}

impl Allocator {
    /// The allocator's invariant: the used prefix stays inside the region and
    /// the whole region fits in the address space.
    pub open spec fn wf(self) -> bool {
        &&& self.index <= self.size
        &&& self.base + self.size <= usize::MAX
    }

    /// Whether a request of `size` bytes at alignment `align` fits in what is
    /// left of the region.
    pub open spec fn spec_can_allocate(self, size: int, align: int) -> bool {
        spec_align_up(self.base + self.index, align) + size <= self.base + self.size
    }

    pub fn new(base: usize, size: usize) -> (a: Allocator)
        requires
            base + size <= usize::MAX,
        ensures
            a.base == base,
            a.size == size,
            a.index == 0,
            a.wf(),
    {
        Allocator { base, size, index: 0 }
    }

    /// Hands out `size` bytes aligned to `align`, or `None` when the region
    /// is exhausted. The result is a fresh address range: it starts at or
    /// after everything handed out before, and the new `index` covers it.
    pub fn allocate(&mut self, size: usize, align: usize) -> (r: Option<usize>)
        requires
            old(self).wf(),
            0 < align,
        ensures
            final(self).base == old(self).base,
            final(self).size == old(self).size,
            final(self).wf(),
            r is Some <==> old(self).spec_can_allocate(size as int, align as int),
            match r {
                Some(addr) => {
                    &&& addr == spec_align_up(old(self).base + old(self).index, align as int)
                    &&& addr % align == 0
                    &&& old(self).base + old(self).index <= addr
                    &&& addr + size <= old(self).base + old(self).size
                    &&& final(self).index == addr + size - old(self).base
                },
                None => final(self).index == old(self).index,
            },
    {
        let current: usize = self.base + self.index;
        let rem: usize = current % align;
        let pad: usize = if rem == 0 { 0 } else { align - rem };
        proof {
            lemma_align_pad(current as int, align as int, pad as int);
        }
        if pad > usize::MAX - current {
            // The aligned address itself would overflow the address space, so
            // the request cannot fit in the region either.
            return None;
        }
        let aligned: usize = current + pad;
        if aligned > self.base + self.size || size > self.base + self.size - aligned {
            return None;
        }
        self.index = aligned + size - self.base;
        Some(aligned)
    }

    /// Whether `allocate` with the same arguments would succeed; changes nothing.
    pub fn can_allocate(&self, size: usize, align: usize) -> (r: bool)
        requires
            self.wf(),
            0 < align,
        ensures
            r == self.spec_can_allocate(size as int, align as int),
    {
        let current: usize = self.base + self.index;
        let rem: usize = current % align;
        let pad: usize = if rem == 0 { 0 } else { align - rem };
        proof {
            lemma_align_pad(current as int, align as int, pad as int);
        }
        if pad > usize::MAX - current {
            return false;
        }
        let aligned: usize = current + pad;
        !(aligned > self.base + self.size || size > self.base + self.size - aligned)
    }
}

} // verus!
