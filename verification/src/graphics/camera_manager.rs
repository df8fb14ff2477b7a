use vstd::prelude::*;

verus! {

/// Hands out projection bind groups for a frame, reusing those of earlier
/// frames: the first `allocated` groups exist, the first `used` are taken.
#[derive(Clone, Copy, PartialEq, Eq, Debug)]
pub struct ProjectionBindGroupAllocator {
    allocated: usize,
    used: usize,
}

/// How a projection gets its bind group.
#[derive(Clone, Copy, PartialEq, Eq, Debug)]
pub enum BindGroupAlloc {
    /// Write the projection into the existing group with this index.
    Reuse(usize),
    /// Create a group with this index (the next one) for the projection.
    Create(usize),
}

/// How the allocation after `used` taken groups, with `allocated` groups
/// existing, gets its group.
pub open spec fn alloc_step(used: nat, allocated: nat) -> BindGroupAlloc {
    if used < allocated {
        BindGroupAlloc::Reuse(used as usize)
    } else {
        BindGroupAlloc::Create(used as usize)
    }
}

/// The number of groups existing after `k` allocations, starting with
/// `used` taken and `allocated` existing.
pub open spec fn allocated_after(used: nat, allocated: nat, k: nat) -> nat
    decreases k,
{
    if k == 0 {
        allocated
    } else {
        let before = allocated_after(used, allocated, (k - 1) as nat);
        if used + k - 1 < before {
            before
        } else {
            before + 1
        }
    }
}

/// `k` allocations in a row, starting with `used` of `allocated` groups
/// taken: allocation `j` takes group `used + j`, reusing it when it exists
/// and creating it otherwise, and afterwards `max(allocated, used + k)`
/// groups exist. After `clear` (`used` 0) they take groups `0..k`, and
/// create none while `k` is at most the number that exist.
pub proof fn lemma_allocations(used: nat, allocated: nat, k: nat)
    requires
        used <= allocated,
    ensures
        allocated_after(used, allocated, k) == if allocated >= used + k {
            allocated
        } else {
            used + k
        },
        forall|j: nat|
            j < k ==> #[trigger] alloc_step(used + j, allocated_after(used, allocated, j)) == if used + j
                < allocated {
                BindGroupAlloc::Reuse((used + j) as usize)
            } else {
                BindGroupAlloc::Create((used + j) as usize)
            },
    decreases k,
{
    if k > 0 {
        lemma_allocations(used, allocated, (k - 1) as nat);
        assert forall|j: nat| j < k implies #[trigger] alloc_step(used + j, allocated_after(used, allocated, j))
            == if used + j < allocated {
            BindGroupAlloc::Reuse((used + j) as usize)
        } else {
            BindGroupAlloc::Create((used + j) as usize)
        } by {
            if j < k - 1 {
            } else {
                lemma_allocations(used, allocated, j);
            }
        }
    }
}

impl ProjectionBindGroupAllocator {
    pub closed spec fn spec_allocated(&self) -> nat {
        self.allocated as nat
    }

    pub closed spec fn spec_used(&self) -> nat {
        self.used as nat
    }

    /// No more groups are taken than exist.
    pub open spec fn wf(&self) -> bool {
        self.spec_used() <= self.spec_allocated()
    }

    /// An allocator without bind groups.
    pub fn new() -> (allocator: Self)
        ensures
            allocator.wf(),
            allocator.spec_allocated() == 0,
            allocator.spec_used() == 0,
    {
        ProjectionBindGroupAllocator { allocated: 0, used: 0 }
    }

    /// Frees every group for reuse.
    pub fn clear(&mut self)
        ensures
            final(self).spec_used() == 0,
            final(self).spec_allocated() == old(self).spec_allocated(),
    {
        self.used = 0;
    }

    /// Takes the next group: an existing one if any is free, else a new
    /// one. Returns how, with the group's index.
    pub fn allocate(&mut self) -> (how: BindGroupAlloc)
        requires
            old(self).wf(),
            old(self).spec_allocated() < usize::MAX,
        ensures
            final(self).wf(),
            final(self).spec_used() == old(self).spec_used() + 1,
            how == if old(self).spec_used() < old(self).spec_allocated() {
                BindGroupAlloc::Reuse(old(self).spec_used() as usize)
            } else {
                BindGroupAlloc::Create(old(self).spec_used() as usize)
            },
            final(self).spec_allocated() == if old(self).spec_used() < old(self).spec_allocated() {
                old(self).spec_allocated()
            } else {
                old(self).spec_allocated() + 1
            },
    {
        let index = self.used;
        let how = if self.used < self.allocated {
            BindGroupAlloc::Reuse(index)
        } else {
            self.allocated = self.allocated + 1;
            BindGroupAlloc::Create(index)
        };
        self.used = self.used + 1;
        how
    }

    /// Whether `index` names a group taken this frame: only those can be
    /// bound.
    pub fn is_taken(&self, index: usize) -> (taken: bool)
        ensures
            taken == (index < self.spec_used()),
    {
        index < self.used
    }
}

} // verus!
