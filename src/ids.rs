use vstd::prelude::*;

verus! {

/// Hands out identifiers in strictly increasing order. `issued` records what
/// this allocator has returned since it was made; `floor` is the counter it
/// was made with, so that an allocator resumed from a saved counter never
/// repeats what an earlier one returned.
pub struct IdAllocator {
    pub next: u64,
    pub floor: Ghost<u64>,
    pub issued: Ghost<Seq<u64>>,
}

impl IdAllocator {
    pub open spec fn wf(&self) -> bool {
        &&& self.floor@ <= self.next
        &&& self.next == self.floor@ + self.issued@.len()
        &&& forall|i: int| 0 <= i < self.issued@.len() ==> #[trigger] self.issued@[i] == self.floor@ + i
        &&& forall|i: int, j: int|
            0 <= i < j < self.issued@.len() ==> self.issued@[i] < self.issued@[j]
        &&& forall|i: int|
            0 <= i < self.issued@.len() ==> self.floor@ <= #[trigger] self.issued@[i] < self.next
    }

    /// A fresh allocator, whose first identifier is 0.
    pub fn new() -> (r: IdAllocator)
        ensures
            r.wf(),
            r.next == 0,
            r.floor@ == 0,
            r.issued@ == Seq::<u64>::empty(),
    {
        IdAllocator { next: 0, floor: Ghost(0), issued: Ghost(Seq::empty()) }
    }

    /// An allocator that continues from a counter saved earlier.
    pub fn resume(saved: u64) -> (r: IdAllocator)
        ensures
            r.wf(),
            r.next == saved,
            r.floor@ == saved,
            r.issued@ == Seq::<u64>::empty(),
    {
        IdAllocator { next: saved, floor: Ghost(saved), issued: Ghost(Seq::empty()) }
    }

    /// The counter to save, so that a resumed allocator goes on from here.
    pub fn saved(&self) -> (r: u64)
        ensures
            r == self.next,
    {
        self.next
    }
}

/// Returns the next identifier and advances the counter by one.
pub fn generate_uuid(ids: &mut IdAllocator) -> (r: u64)
    requires
        old(ids).wf(),
        old(ids).next < u64::MAX,
    ensures
        final(ids).wf(),
        r == old(ids).next,
        final(ids).next == old(ids).next + 1,
        final(ids).floor@ == old(ids).floor@,
        final(ids).issued@ == old(ids).issued@.push(r),
{
    let id = ids.next;
    ids.next = id + 1;
    ids.issued = Ghost(ids.issued@.push(id));
    id
}

/// Identifiers come out strictly increasing, hence distinct: any two handed
/// out by one allocator are ordered as they were handed out.
pub proof fn lemma_issued_increasing(ids: IdAllocator, i: int, j: int)
    requires
        ids.wf(),
        0 <= i < j < ids.issued@.len(),
    ensures
        ids.issued@[i] < ids.issued@[j],
        ids.issued@[i] != ids.issued@[j],
{
}

/// After a restart, an allocator resumed from the counter that the earlier
/// one saved hands out only identifiers above every one the earlier gave,
/// starting right after the last of them.
pub proof fn lemma_resume_continues(before: IdAllocator, after: IdAllocator, i: int, j: int)
    requires
        before.wf(),
        after.wf(),
        after.floor@ == before.next,
        0 <= i < before.issued@.len(),
        0 <= j < after.issued@.len(),
    ensures
        before.issued@[i] < after.issued@[j],
        after.issued@[0] == before.issued@.last() + 1,
{
    assert(after.issued@[0] == after.floor@ + 0);
    assert(before.issued@[before.issued@.len() - 1] == before.floor@ + before.issued@.len() - 1);
}

} // verus!
