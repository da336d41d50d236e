//! Lazy memory virtualization: pages stay protected (unmaterialized) until
//! first touch; touched pages are recorded so the caller can extract the
//! minimal set of changed guest state. Protection state is scoped to one
//! execution, re-established across growth events, and always torn down
//! before the next initialization.

use vstd::prelude::*;
use crate::memory::{GuestMemory, PAGE_SIZE};

verus! {

/// Which exported globals carry the gas and allowance counters, so the
/// protection layer can account for or exempt accesses to them.
#[derive(Clone, Copy, Debug, PartialEq, Eq, Structural)]
pub struct GlobalsConfig {
    pub gas_global_index: u32,
    pub allowance_global_index: u32,
}

/// Costs charged when a protected page is first touched.
#[derive(Clone, Copy, Debug, PartialEq, Eq, Structural)]
pub struct LazyPagesWeights {
    pub signal_read: u64,
    pub signal_write: u64,
}

/// A byte interval a guest instruction is about to touch.
#[derive(Clone, Copy, Debug, PartialEq, Eq, Structural)]
pub struct MemoryInterval {
    pub offset: u32,
    pub size: u32,
}

/// An access interval fell outside the valid guest address range.
#[derive(Clone, Copy, Debug, PartialEq, Eq, Structural)]
pub struct OutOfMemoryAccessError {
    pub interval: MemoryInterval,
}

/// The interval lies within the guest address range of `total_pages` pages.
pub open spec fn spec_interval_in_bounds(iv: MemoryInterval, total_pages: u32) -> bool {
    iv.size == 0 || iv.offset + iv.size <= total_pages * (PAGE_SIZE as int)
}

/// Every interval of the batch lies within the address range.
pub open spec fn spec_all_in_bounds(ivs: Seq<MemoryInterval>, total_pages: u32) -> bool {
    forall|j: int| 0 <= j < ivs.len() ==> spec_interval_in_bounds(#[trigger] ivs[j], total_pages)
}

/// The interval overlaps page `p`.
pub open spec fn spec_touches(iv: MemoryInterval, p: int) -> bool {
    &&& iv.size > 0
    &&& iv.offset < (p + 1) * (PAGE_SIZE as int)
    &&& p * (PAGE_SIZE as int) < iv.offset + iv.size
}

/// Some interval of the batch overlaps page `p`.
pub open spec fn spec_any_touches(ivs: Seq<MemoryInterval>, p: int) -> bool {
    exists|j: int| 0 <= j < ivs.len() && spec_touches(#[trigger] ivs[j], p)
}

/// Per-execution record of the lazy-page protection layer: the bound
/// program, the protected address range, the stack boundary below which
/// pages are materialized eagerly, and the set of released (touched) pages.
/// The machine-level base address and signal handler live outside this
/// model; this state is what they consult.
pub struct LazyPages {
    /// A program's range, stack boundary and globals are bound.
    pub initialized: bool,
    /// Protections are currently installed; cleared around growth and at
    /// teardown.
    pub active: bool,
    pub program_id: u64,
    /// Pages below this boundary hold static data and stack; they are
    /// never protected and never tracked.
    pub stack_end: u32,
    pub total_pages: u32,
    /// One flag per page: true once the page was touched and released.
    pub released: Vec<bool>,
    pub globals: GlobalsConfig,
    pub weights: LazyPagesWeights,
}

impl LazyPages {
    /// The released map covers exactly the guest address range.
    pub open spec fn wf(&self) -> bool {
        &&& self.released@.len() == self.total_pages
        &&& self.stack_end <= self.total_pages
    }

    /// Page `p` is currently protected: in range, above the stack boundary,
    /// and not yet released.
    pub open spec fn spec_protected(&self, p: int) -> bool {
        &&& self.active
        &&& self.stack_end <= p < self.total_pages
        &&& !self.released@[p]
    }

    /// Fresh, uninitialized state.
    pub fn new() -> (s: LazyPages)
        ensures
            s.wf(),
            !s.initialized,
            !s.active,
            s.total_pages == 0,
    {
        LazyPages {
            initialized: false,
            active: false,
            program_id: 0,
            stack_end: 0,
            total_pages: 0,
            released: Vec::new(),
            globals: GlobalsConfig { gas_global_index: 0, allowance_global_index: 0 },
            weights: LazyPagesWeights { signal_read: 0, signal_write: 0 },
        }
    }

    /// Bind a program: protect the full guest address range except the
    /// pages below the stack boundary, record the globals that carry the
    /// counters, and start with an empty released set. The previous
    /// execution must have been torn down.
    pub fn init_for_program(
        &mut self,
        mem: &GuestMemory,
        program_id: u64,
        stack_end: u32,
        globals: GlobalsConfig,
        weights: LazyPagesWeights,
    )
        requires
            mem.wf(),
            !old(self).initialized,
            stack_end <= mem@.len(),
        ensures
            final(self).wf(),
            final(self).initialized,
            final(self).active,
            final(self).program_id == program_id,
            final(self).stack_end == stack_end,
            final(self).total_pages == mem@.len(),
            final(self).globals == globals,
            final(self).weights == weights,
            forall|p: int| 0 <= p < mem@.len() ==> !(#[trigger] final(self).released@[p]),
    {
        let total: u32 = mem.size();
        let mut released: Vec<bool> = Vec::new();
        let mut i: u32 = 0;
        while i < total
            invariant
                i <= total,
                released@.len() == i,
                forall|p: int| 0 <= p < i ==> !(#[trigger] released@[p]),
            decreases total - i,
        {
            released.push(false);
            i = i + 1;
        }
        self.initialized = true;
        self.active = true;
        self.program_id = program_id;
        self.stack_end = stack_end;
        self.total_pages = total;
        self.released = released;
        self.globals = globals;
        self.weights = weights;
    }

    /// Validate a batch of reads and writes against the address range and
    /// release every protected page they touch, materializing it. Returns
    /// an error — changing nothing — when any interval falls outside the
    /// range; the guest instruction may execute only after this succeeds.
    pub fn pre_process_memory_accesses(
        &mut self,
        reads: &Vec<MemoryInterval>,
        writes: &Vec<MemoryInterval>,
    ) -> (r: Result<(), OutOfMemoryAccessError>)
        requires
            old(self).wf(),
            old(self).initialized,
        ensures
            final(self).wf(),
            r is Ok <==> spec_all_in_bounds(reads@, old(self).total_pages) && spec_all_in_bounds(
                writes@,
                old(self).total_pages,
            ),
            r is Err ==> *final(self) == *old(self),
            r matches Err(e) ==> !spec_interval_in_bounds(e.interval, old(self).total_pages),
            final(self).initialized == old(self).initialized,
            final(self).active == old(self).active,
            final(self).program_id == old(self).program_id,
            final(self).stack_end == old(self).stack_end,
            final(self).total_pages == old(self).total_pages,
            final(self).globals == old(self).globals,
            final(self).weights == old(self).weights,
            r is Ok ==> forall|p: int|
                0 <= p < old(self).total_pages ==> ((#[trigger] final(self).released@[p])
                    <==> old(self).released@[p] || (old(self).stack_end <= p && (spec_any_touches(
                    reads@,
                    p,
                ) || spec_any_touches(writes@, p)))),
            r is Ok ==> forall|p: int|
                0 <= p < old(self).total_pages && (spec_any_touches(reads@, p) || spec_any_touches(
                    writes@,
                    p,
                )) ==> !(#[trigger] final(self).spec_protected(p)),
    {
        match check_intervals(reads, self.total_pages) {
            Some(bad) => {
                return Err(OutOfMemoryAccessError { interval: bad });
            },
            None => {},
        }
        match check_intervals(writes, self.total_pages) {
            Some(bad) => {
                return Err(OutOfMemoryAccessError { interval: bad });
            },
            None => {},
        }
        self.release_intervals(reads);
        self.release_intervals(writes);
        proof {
            assert forall|p: int| 0 <= p < old(self).total_pages implies ((
            #[trigger] self.released@[p]) <==> old(self).released@[p] || (old(self).stack_end <= p
                && (spec_any_touches(reads@, p) || spec_any_touches(writes@, p)))) by {}
        }
        Ok(())
    }

    /// Release every page of the batch that lies above the stack boundary.
    fn release_intervals(&mut self, ivs: &Vec<MemoryInterval>)
        requires
            old(self).wf(),
        ensures
            final(self).wf(),
            final(self).initialized == old(self).initialized,
            final(self).active == old(self).active,
            final(self).program_id == old(self).program_id,
            final(self).stack_end == old(self).stack_end,
            final(self).total_pages == old(self).total_pages,
            final(self).globals == old(self).globals,
            final(self).weights == old(self).weights,
            forall|p: int|
                0 <= p < old(self).total_pages ==> ((#[trigger] final(self).released@[p])
                    <==> old(self).released@[p] || (old(self).stack_end <= p && spec_any_touches(
                    ivs@,
                    p,
                ))),
    {
        let ghost orig = self.released@;
        let mut j: usize = 0;
        while j < ivs.len()
            invariant
                j <= ivs@.len(),
                self.wf(),
                self.initialized == old(self).initialized,
                self.active == old(self).active,
                self.program_id == old(self).program_id,
                self.stack_end == old(self).stack_end,
                self.total_pages == old(self).total_pages,
                self.globals == old(self).globals,
                self.weights == old(self).weights,
                orig == old(self).released@,
                forall|p: int|
                    0 <= p < old(self).total_pages ==> ((#[trigger] self.released@[p]) <==> orig[p]
                        || (old(self).stack_end <= p && spec_any_touches(
                        ivs@.subrange(0, j as int),
                        p,
                    ))),
            decreases ivs@.len() - j,
        {
            let iv = ivs[j];
            let ghost before = self.released@;
            let mut q: u32 = 0;
            while q < self.total_pages
                invariant
                    q <= self.total_pages,
                    self.wf(),
                    self.initialized == old(self).initialized,
                    self.active == old(self).active,
                    self.program_id == old(self).program_id,
                    self.stack_end == old(self).stack_end,
                    self.total_pages == old(self).total_pages,
                    self.globals == old(self).globals,
                    self.weights == old(self).weights,
                    forall|p: int|
                        0 <= p < q ==> ((#[trigger] self.released@[p]) <==> before[p] || (old(
                            self,
                        ).stack_end <= p && spec_touches(iv, p))),
                    forall|p: int|
                        q <= p < self.total_pages ==> (#[trigger] self.released@[p]) == before[p],
                decreases self.total_pages - q,
            {
                proof {
                    assert(PAGE_SIZE as u64 == 4096u64);
                }
                let touches: bool = iv.size > 0 && (iv.offset as u64) < (q as u64 + 1) * 4096u64
                    && (q as u64) * 4096u64 < (iv.offset as u64) + (iv.size as u64);
                proof {
                    assert(touches == spec_touches(iv, q as int));
                }
                if touches && q >= self.stack_end {
                    self.released[q as usize] = true;
                }
                q = q + 1;
            }
            proof {
                assert(ivs@.subrange(0, j as int + 1).drop_last() =~= ivs@.subrange(0, j as int));
                assert forall|p: int| 0 <= p < old(self).total_pages implies ((
                #[trigger] self.released@[p]) <==> orig[p] || (old(self).stack_end <= p
                    && spec_any_touches(ivs@.subrange(0, j as int + 1), p))) by {
                    let sub = ivs@.subrange(0, j as int + 1);
                    assert(sub[j as int] == ivs@[j as int]);
                    if spec_any_touches(sub, p) {
                        let w = choose|w: int| 0 <= w < sub.len() && spec_touches(#[trigger] sub[w], p);
                        if w < j {
                            assert(sub[w] == ivs@.subrange(0, j as int)[w]);
                            assert(spec_any_touches(ivs@.subrange(0, j as int), p));
                        }
                    }
                    if spec_any_touches(ivs@.subrange(0, j as int), p) {
                        let w = choose|w: int|
                            0 <= w < j && spec_touches(#[trigger] ivs@.subrange(0, j as int)[w], p);
                        assert(sub[w] == ivs@.subrange(0, j as int)[w]);
                        assert(spec_touches(sub[w], p));
                    }
                }
            }
            j = j + 1;
        }
        proof {
            assert(ivs@.subrange(0, ivs@.len() as int) =~= ivs@);
        }
    }

    /// The pages touched during this execution, in ascending order, one
    /// entry per page.
    pub fn get_released_pages(&self) -> (r: Vec<u32>)
        requires
            self.wf(),
        ensures
            forall|a: int, b: int| 0 <= a < b < r@.len() ==> r@[a] < r@[b],
            forall|a: int| 0 <= a < r@.len() ==> (#[trigger] r@[a]) < self.total_pages,
            forall|p: u32| #[trigger] r@.contains(p) <==> (p < self.total_pages && self.released@[p as int]),
    {
        let mut r: Vec<u32> = Vec::new();
        let mut q: u32 = 0;
        while q < self.total_pages
            invariant
                q <= self.total_pages,
                self.wf(),
                forall|a: int, b: int| 0 <= a < b < r@.len() ==> r@[a] < r@[b],
                forall|a: int| 0 <= a < r@.len() ==> (#[trigger] r@[a]) < q,
                forall|p: u32| #[trigger] r@.contains(p) <==> (p < q && self.released@[p as int]),
            decreases self.total_pages - q,
        {
            if self.released[q as usize] {
                let ghost before = r@;
                r.push(q);
                proof {
                    assert forall|p: u32| #[trigger] r@.contains(p) <==> (p < q + 1
                        && self.released@[p as int]) by {
                        assert(r@ == before.push(q));
                        assert(r@[before.len() as int] == q);
                        if r@.contains(p) {
                            let w = choose|w: int| 0 <= w < r@.len() && r@[w] == p;
                            if w < before.len() {
                                assert(before[w] == p);
                                assert(before.contains(p));
                            }
                        }
                        if p < q + 1 && self.released@[p as int] {
                            if p < q {
                                assert(before.contains(p));
                                let w = choose|w: int| 0 <= w < before.len() && before[w] == p;
                                assert(r@[w] == p);
                            } else {
                                assert(r@[before.len() as int] == p);
                            }
                        }
                    }
                }
            } else {
                proof {
                    assert forall|p: u32| (#[trigger] r@.contains(p) <==> (p < q + 1
                        && self.released@[p as int])) by {
                        if r@.contains(p) {
                            let w = choose|w: int| 0 <= w < r@.len() && r@[w] == p;
                            assert(r@[w] < q);
                        }
                    }
                }
            }
            q = q + 1;
        }
        r
    }

    /// Unconditional teardown: protections are removed and the program
    /// binding cleared, so the next execution can initialize afresh. The
    /// released set stays readable until then.
    pub fn remove_lazy_pages_prot(&mut self)
        requires
            old(self).wf(),
        ensures
            final(self).wf(),
            !final(self).initialized,
            !final(self).active,
            final(self).released == old(self).released,
            final(self).total_pages == old(self).total_pages,
            final(self).stack_end == old(self).stack_end,
    {
        self.initialized = false;
        self.active = false;
    }

    /// Re-establish protection after a growth event: the address range is
    /// extended to the new memory size and every page keeps its released
    /// state, newly allocated pages starting protected.
    pub fn update_lazy_pages_and_protect_again(&mut self, mem: &GuestMemory)
        requires
            old(self).wf(),
            mem.wf(),
            old(self).total_pages <= mem@.len(),
        ensures
            final(self).wf(),
            final(self).active,
            final(self).initialized == old(self).initialized,
            final(self).program_id == old(self).program_id,
            final(self).stack_end == old(self).stack_end,
            final(self).total_pages == mem@.len(),
            final(self).globals == old(self).globals,
            final(self).weights == old(self).weights,
            forall|p: int|
                0 <= p < old(self).total_pages ==> (#[trigger] final(self).released@[p]) == old(
                    self,
                ).released@[p],
            forall|p: int|
                old(self).total_pages <= p < mem@.len() ==> !(#[trigger] final(self).released@[p]),
    {
        let new_total: u32 = mem.size();
        while self.released.len() < new_total as usize
            invariant
                self.wf(),
                old(self).total_pages <= self.released@.len() <= new_total,
                self.total_pages == self.released@.len(),
                self.initialized == old(self).initialized,
                self.active == old(self).active,
                self.program_id == old(self).program_id,
                self.stack_end == old(self).stack_end,
                self.globals == old(self).globals,
                self.weights == old(self).weights,
                forall|p: int|
                    0 <= p < old(self).total_pages ==> (#[trigger] self.released@[p]) == old(
                        self,
                    ).released@[p],
                forall|p: int|
                    old(self).total_pages <= p < self.released@.len() ==> !(
                    #[trigger] self.released@[p]),
            decreases new_total - self.released@.len(),
        {
            self.released.push(false);
            self.total_pages = self.total_pages + 1;
        }
        self.total_pages = new_total;
        self.active = true;
    }
}

fn check_intervals(ivs: &Vec<MemoryInterval>, total_pages: u32) -> (r: Option<MemoryInterval>)
    ensures
        r is None <==> spec_all_in_bounds(ivs@, total_pages),
        r matches Some(bad) ==> !spec_interval_in_bounds(bad, total_pages),
{
    let mut j: usize = 0;
    while j < ivs.len()
        invariant
            j <= ivs@.len(),
            forall|i: int| 0 <= i < j ==> spec_interval_in_bounds(#[trigger] ivs@[i], total_pages),
        decreases ivs@.len() - j,
    {
        let iv = ivs[j];
        if iv.size > 0 {
            proof {
                assert(PAGE_SIZE as u64 == 4096u64);
            }
            let end: u64 = (iv.offset as u64) + (iv.size as u64);
            let cap: u64 = (total_pages as u64) * 4096u64;
            if end > cap {
                return Some(iv);
            }
        }
        j = j + 1;
    }
    None
}

/// Two-phase growth handling: protections are removed before a size change
/// (the backing buffer may relocate) and recomputed afterwards for the
/// released-plus-newly-allocated page set.
pub struct LazyGrowHandler {
    pub old_mem_size: u32,
    pub was_active: bool,
}

impl LazyGrowHandler {
    /// Before growth: remember the old size and drop every protection, as
    /// the backing buffer may move.
    pub fn before_grow_action(lazy: &mut LazyPages, mem: &GuestMemory) -> (h: LazyGrowHandler)
        requires
            old(lazy).wf(),
            mem.wf(),
        ensures
            final(lazy).wf(),
            !final(lazy).active,
            final(lazy).released == old(lazy).released,
            final(lazy).total_pages == old(lazy).total_pages,
            final(lazy).stack_end == old(lazy).stack_end,
            h.old_mem_size == mem@.len(),
            h.was_active == old(lazy).active,
            final(lazy).initialized == old(lazy).initialized,
    {
        let h = LazyGrowHandler { old_mem_size: mem.size(), was_active: lazy.active };
        lazy.active = false;
        h
    }

    /// After growth: protect again over the new, larger range; previously
    /// released pages keep their state at their logical offsets.
    pub fn after_grow_action(self, lazy: &mut LazyPages, mem: &GuestMemory)
        requires
            old(lazy).wf(),
            mem.wf(),
            old(lazy).total_pages <= mem@.len(),
        ensures
            final(lazy).wf(),
            final(lazy).active,
            final(lazy).total_pages == mem@.len(),
            forall|p: int|
                0 <= p < old(lazy).total_pages ==> (#[trigger] final(lazy).released@[p]) == old(
                    lazy,
                ).released@[p],
            forall|p: int|
                old(lazy).total_pages <= p < mem@.len() ==> !(#[trigger] final(lazy).released@[p]),
    {
        lazy.update_lazy_pages_and_protect_again(mem);
    }
}

} // verus!
