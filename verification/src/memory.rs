use std::collections::VecDeque;
use vstd::prelude::*;

use crate::error::MachError;

verus! {

/// The segmented heap as a mathematical value: for every identifier issued so
/// far whether it is mapped and, if so, its words; and the released
/// identifiers in the order of their release.
pub struct MemoryState {
    /// The identifier space: `segs[id]` is `Some(words)` while `id` is mapped.
    pub segs: Seq<Option<Seq<u32>>>,
    /// The free list, longest-released identifier first.
    pub free: Seq<u32>,
}

/// The number of identifiers there are: 2^32.
pub open spec fn id_limit() -> nat {
    0x1_0000_0000
}

impl MemoryState {
    /// The heap of a fresh machine: `program` is segment 0, nothing else exists.
    pub open spec fn initial(program: Seq<u32>) -> MemoryState {
        MemoryState { segs: seq![Some(program)], free: Seq::empty() }
    }

    /// Whether `id` names a mapped segment.
    pub open spec fn mapped(self, id: u32) -> bool {
        id < self.segs.len() && self.segs[id as int] is Some
    }

    /// The words of segment `id`.
    pub open spec fn segment(self, id: u32) -> Seq<u32>
        recommends
            self.mapped(id),
    {
        self.segs[id as int].unwrap()
    }

    /// Whether `id` waits on the free list.
    pub open spec fn released(self, id: u32) -> bool {
        self.free.contains(id)
    }

    /// The invariants of the heap: segment 0 is mapped; the identifier space
    /// fits in 32 bits; the free list holds each unmapped identifier of the
    /// space, once, and nothing else.
    pub open spec fn wf(self) -> bool {
        &&& self.segs.len() <= id_limit()
        &&& self.mapped(0)
        &&& self.free.no_duplicates()
        &&& forall|k: int|
            0 <= k < self.free.len() ==> (#[trigger] self.free[k]) < self.segs.len()
                && !self.mapped(self.free[k])
        &&& forall|id: u32| id < self.segs.len() && !self.mapped(id) ==> #[trigger] self.released(id)
    }

    /// The identifier that the next allocation gives: the head of the free
    /// list if there is one, else the size of the identifier space, and none
    /// once that space is full.
    pub open spec fn next_id(self) -> Option<u32> {
        if self.free.len() > 0 {
            Some(self.free[0])
        } else if self.segs.len() < id_limit() {
            Some(self.segs.len() as u32)
        } else {
            None
        }
    }

    /// The heap after an allocation of `len` zero words, unchanged where no
    /// identifier is left.
    pub open spec fn allocate(self, len: nat) -> MemoryState {
        let zeros = Seq::new(len, |i: int| 0u32);
        if self.free.len() > 0 {
            MemoryState {
                segs: self.segs.update(self.free[0] as int, Some(zeros)),
                free: self.free.subrange(1, self.free.len() as int),
            }
        } else if self.segs.len() < id_limit() {
            MemoryState { segs: self.segs.push(Some(zeros)), free: self.free }
        } else {
            self
        }
    }

    /// Whether `id` can be deallocated: it is mapped and is not segment 0.
    pub open spec fn can_deallocate(self, id: u32) -> bool {
        id != 0 && self.mapped(id)
    }

    /// The heap after `id` is released: unmapped, and last on the free list.
    pub open spec fn deallocate(self, id: u32) -> MemoryState
        recommends
            self.can_deallocate(id),
    {
        MemoryState { segs: self.segs.update(id as int, None), free: self.free.push(id) }
    }

    /// What a load from offset `off` of segment `id` gives.
    pub open spec fn load(self, id: u32, off: u32) -> Result<u32, MachError> {
        if !self.mapped(id) {
            Err(MachError::LoadUnmappedSegment)
        } else if off >= self.segment(id).len() {
            Err(MachError::LoadOutOfSegment)
        } else {
            Ok(self.segment(id)[off as int])
        }
    }

    /// Whether a store to offset `off` of segment `id` succeeds, and the
    /// fault if it does not.
    pub open spec fn store_result(self, id: u32, off: u32) -> Result<(), MachError> {
        if !self.mapped(id) {
            Err(MachError::StoreUnmappedSegment)
        } else if off >= self.segment(id).len() {
            Err(MachError::StoreOutOfSegment)
        } else {
            Ok(())
        }
    }

    /// The heap after `val` is stored at offset `off` of segment `id`,
    /// unchanged where the store faults.
    pub open spec fn store(self, id: u32, off: u32, val: u32) -> MemoryState {
        if self.store_result(id, off) is Ok {
            MemoryState {
                segs: self.segs.update(id as int, Some(self.segment(id).update(off as int, val))),
                free: self.free,
            }
        } else {
            self
        }
    }

    /// What a fetch from offset `off` of the program segment gives.
    pub open spec fn fetch(self, off: nat) -> Result<u32, MachError> {
        if off < self.segment(0).len() {
            Ok(self.segment(0)[off as int])
        } else {
            Err(MachError::OutOfBound)
        }
    }

    /// The heap after segment 0 is replaced by a copy of segment `id`,
    /// unchanged where `id` is not mapped.
    pub open spec fn clone_into_zero(self, id: u32) -> MemoryState {
        if self.mapped(id) {
            MemoryState { segs: self.segs.update(0, Some(self.segment(id))), free: self.free }
        } else {
            self
        }
    }
}

/// The words of a stored segment table as mathematical values.
pub open spec fn table_view(table: Seq<Option<Vec<u32>>>) -> Seq<Option<Seq<u32>>> {
    Seq::new(
        table.len(),
        |i: int|
            match table[i] {
                Some(words) => Some(words@),
                None => None,
            },
    )
}

/// The segmented memory of the machine.
pub struct Memory {
    // the identifier space: `None` marks an unmapped identifier
    segs: Vec<Option<Vec<u32>>>,
    // unmapped identifiers, ready to be mapped again
    unmapped_segs: VecDeque<u32>,
}

impl View for Memory {
    type V = MemoryState;

    closed spec fn view(&self) -> MemoryState {
        MemoryState { segs: table_view(self.segs@), free: self.unmapped_segs@ }
    }
}

impl Memory {
    /// The heap invariants hold of this memory.
    pub open spec fn wf(&self) -> bool {
        self@.wf()
    }

    /// A memory whose segment 0 holds `instructions` and that has no other segment.
    pub fn new(instructions: Vec<u32>) -> (memory: Self)
        ensures
            memory.wf(),
            memory@ == MemoryState::initial(instructions@),
    {
        let mut segs: Vec<Option<Vec<u32>>> = Vec::new();
        segs.push(Some(instructions));
        let memory = Memory { segs, unmapped_segs: VecDeque::new() };
        proof {
            assert(memory@.segs =~= seq![Some(instructions@)]);
        }
        memory
    }

    /// The word at `offset` of the program segment, or `OutOfBound` where the
    /// program segment ends at or before `offset`.
    pub fn get_i(&self, offset: usize) -> (word: Result<u32, MachError>)
        requires
            self.wf(),
        ensures
            word == self@.fetch(offset as nat),
            word is Ok ==> offset < usize::MAX,
    {
        match &self.segs[0] {
            Some(program) => {
                if offset < program.len() {
                    Ok(program[offset])
                } else {
                    Err(MachError::OutOfBound)
                }
            },
            None => Err(MachError::OutOfBound),
        }
    }

    /// The word at `offset` of segment `id`. Faults where `id` is not mapped
    /// and where the segment ends at or before `offset`.
    pub fn get(&self, id: u32, offset: u32) -> (word: Result<u32, MachError>)
        requires
            self.wf(),
        ensures
            word == self@.load(id, offset),
    {
        if id as usize >= self.segs.len() {
            return Err(MachError::LoadUnmappedSegment);
        }
        match &self.segs[id as usize] {
            Some(words) => {
                if (offset as usize) < words.len() {
                    Ok(words[offset as usize])
                } else {
                    Err(MachError::LoadOutOfSegment)
                }
            },
            None => Err(MachError::LoadUnmappedSegment),
        }
    }

    /// Stores `val` at `offset` of segment `id`. Faults as a load from there
    /// would, and then changes nothing.
    pub fn set(&mut self, id: u32, offset: u32, val: u32) -> (done: Result<(), MachError>)
        requires
            old(self).wf(),
        ensures
            final(self).wf(),
            done == old(self)@.store_result(id, offset),
            final(self)@ == old(self)@.store(id, offset, val),
    {
        if id as usize >= self.segs.len() {
            return Err(MachError::StoreUnmappedSegment);
        }
        let done = match &mut self.segs[id as usize] {
            Some(words) => {
                if (offset as usize) < words.len() {
                    words[offset as usize] = val;
                    Ok(())
                } else {
                    Err(MachError::StoreOutOfSegment)
                }
            },
            None => Err(MachError::StoreUnmappedSegment),
        };
        proof {
            assert(self@.segs =~= old(self)@.store(id, offset, val).segs);
            lemma_store_keeps_wf(old(self)@, id, offset, val);
        }
        done
    }

    /// Maps a segment of `len` zero words and gives its identifier: the
    /// longest-released identifier if one waits, else a fresh one. Faults,
    /// changing nothing, only where all 2^32 identifiers are mapped.
    pub fn allocate(&mut self, len: u32) -> (id: Result<u32, MachError>)
        requires
            old(self).wf(),
        ensures
            final(self).wf(),
            final(self)@ == old(self)@.allocate(len as nat),
            match id {
                Ok(id) => old(self)@.next_id() == Some(id) && id != 0 && !old(self)@.mapped(id)
                    && final(self)@.mapped(id) && !final(self)@.released(id),
                Err(e) => old(self)@.next_id() is None && e == MachError::SegmentSpaceExhausted,
            },
    {
        let new_seg: Vec<u32> = vec![0u32; len as usize];
        proof {
            assert(new_seg@ =~= Seq::new(len as nat, |i: int| 0u32));
            lemma_allocate_keeps_wf(self@, len as nat);
        }
        match self.unmapped_segs.pop_front() {
            Some(o) => {
                self.segs[o as usize] = Some(new_seg);
                proof {
                    assert(self@.segs =~= old(self)@.allocate(len as nat).segs);
                }
                Ok(o)
            },
            None => {
                if self.segs.len() > u32::MAX as usize {
                    return Err(MachError::SegmentSpaceExhausted);
                }
                let o: u32 = self.segs.len() as u32;
                self.segs.push(Some(new_seg));
                proof {
                    assert(self@.segs =~= old(self)@.allocate(len as nat).segs);
                }
                Ok(o)
            },
        }
    }

    /// Unmaps segment `id` and puts `id` last on the free list. Faults,
    /// changing nothing, where `id` is 0 or is not mapped.
    pub fn deallocate(&mut self, id: u32) -> (done: Result<(), MachError>)
        requires
            old(self).wf(),
        ensures
            final(self).wf(),
            match done {
                Ok(_) => old(self)@.can_deallocate(id) && final(self)@ == old(self)@.deallocate(id)
                    && !final(self)@.mapped(id) && final(self)@.released(id),
                Err(e) => !old(self)@.can_deallocate(id) && e == MachError::NotFoundUnmapSegment
                    && final(self)@ == old(self)@,
            },
    {
        if id == 0 || id as usize >= self.segs.len() {
            return Err(MachError::NotFoundUnmapSegment);
        }
        if self.segs[id as usize].is_none() {
            return Err(MachError::NotFoundUnmapSegment);
        }
        self.segs[id as usize] = None;
        self.unmapped_segs.push_back(id);
        proof {
            assert(self@.segs =~= old(self)@.deallocate(id).segs);
            lemma_deallocate_keeps_wf(old(self)@, id);
        }
        Ok(())
    }

    /// Replaces segment 0 with a copy of segment `id`, which stays as it is;
    /// with `id` 0 nothing is copied. Faults, changing nothing, where `id` is
    /// not mapped.
    pub fn clone_into_zero(&mut self, id: u32) -> (done: Result<(), MachError>)
        requires
            old(self).wf(),
        ensures
            final(self).wf(),
            final(self)@ == old(self)@.clone_into_zero(id),
            match done {
                Ok(_) => old(self)@.mapped(id),
                Err(e) => !old(self)@.mapped(id) && e == MachError::NotFoundLoadProgramSegment,
            },
    {
        if id as usize >= self.segs.len() {
            return Err(MachError::NotFoundLoadProgramSegment);
        }
        if id == 0 {
            proof {
                assert(self@.segs =~= old(self)@.clone_into_zero(id).segs);
            }
            return Ok(());
        }
        let copy: Option<Vec<u32>> = match &self.segs[id as usize] {
            Some(words) => Some(words.clone()),
            None => None,
        };
        match copy {
            Some(words) => {
                self.segs[0] = Some(words);
                proof {
                    assert(self@.segs =~= old(self)@.clone_into_zero(id).segs);
                    lemma_clone_into_zero_keeps_wf(old(self)@, id);
                }
                Ok(())
            },
            None => Err(MachError::NotFoundLoadProgramSegment),
        }
    }
}

/// A store keeps the heap invariants, the free list and which identifiers are mapped.
pub proof fn lemma_store_keeps_wf(m: MemoryState, id: u32, off: u32, val: u32)
    requires
        m.wf(),
    ensures
        m.store(id, off, val).wf(),
        m.store(id, off, val).free == m.free,
        forall|j: u32| m.store(id, off, val).mapped(j) == m.mapped(j),
{
    let after = m.store(id, off, val);
    assert forall|j: u32| after.mapped(j) == m.mapped(j) by {}
    assert forall|j: u32| j < after.segs.len() && !after.mapped(j) implies #[trigger] after.released(
        j,
    ) by {
        assert(m.released(j));
    }
}

/// An allocation keeps the heap invariants. Where an identifier is left, it
/// is not 0, was not mapped before and is mapped after, with `len` zero
/// words, and no longer waits on the free list; every other segment is as it
/// was.
pub proof fn lemma_allocate_keeps_wf(m: MemoryState, len: nat)
    requires
        m.wf(),
    ensures
        m.allocate(len).wf(),
        m.next_id() is None ==> m.allocate(len) == m,
        m.next_id() matches Some(id) ==> {
            &&& id != 0
            &&& !m.mapped(id)
            &&& m.allocate(len).mapped(id)
            &&& !m.allocate(len).released(id)
            &&& m.allocate(len).segment(id) == Seq::new(len, |i: int| 0u32)
            &&& forall|j: u32| j != id ==> m.allocate(len).mapped(j) == m.mapped(j)
            &&& forall|j: u32| j != id && m.mapped(j) ==> m.allocate(len).segment(j) == m.segment(j)
        },
{
    let after = m.allocate(len);
    if m.free.len() > 0 {
        let id = m.free[0];
        assert forall|k: int| 0 <= k < after.free.len() implies (#[trigger] after.free[k])
            < after.segs.len() && !after.mapped(after.free[k]) by {
            assert(after.free[k] == m.free[k + 1]);
        }
        assert forall|j: u32| j < after.segs.len() && !after.mapped(j) implies #[trigger] after.released(
            j,
        ) by {
            assert(m.released(j));
            let k = choose|k: int| 0 <= k < m.free.len() && m.free[k] == j;
            assert(after.free[k - 1] == j);
        }
        assert(!after.released(id)) by {
            if after.released(id) {
                let k = choose|k: int| 0 <= k < after.free.len() && after.free[k] == id;
                assert(m.free[k + 1] == m.free[0]);
            }
        }
    } else if m.segs.len() < id_limit() {
        assert forall|j: u32| j < after.segs.len() && !after.mapped(j) implies #[trigger] after.released(
            j,
        ) by {
            assert(m.released(j));
        }
    }
}

/// A deallocation of a mapped identifier other than 0 keeps the heap
/// invariants, unmaps that identifier and puts it on the free list; every
/// other segment is as it was.
pub proof fn lemma_deallocate_keeps_wf(m: MemoryState, id: u32)
    requires
        m.wf(),
        m.can_deallocate(id),
    ensures
        m.deallocate(id).wf(),
        !m.deallocate(id).mapped(id),
        m.deallocate(id).released(id),
        forall|j: u32| j != id ==> m.deallocate(id).mapped(j) == m.mapped(j),
        forall|j: u32| j != id && m.mapped(j) ==> m.deallocate(id).segment(j) == m.segment(j),
{
    let after = m.deallocate(id);
    assert(after.free[m.free.len() as int] == id);
    assert(!m.released(id)) by {
        if m.released(id) {
            let k = choose|k: int| 0 <= k < m.free.len() && m.free[k] == id;
            assert(!m.mapped(m.free[k]));
        }
    }
    assert forall|j: u32| j < after.segs.len() && !after.mapped(j) implies #[trigger] after.released(
        j,
    ) by {
        if j != id {
            assert(m.released(j));
            let k = choose|k: int| 0 <= k < m.free.len() && m.free[k] == j;
            assert(after.free[k] == j);
        }
    }
}

/// A program load from a mapped segment keeps the heap invariants; after it
/// segment 0 equals that segment word for word, and every other segment,
/// the source among them, is as it was.
pub proof fn lemma_clone_into_zero_keeps_wf(m: MemoryState, id: u32)
    requires
        m.wf(),
        m.mapped(id),
    ensures
        m.clone_into_zero(id).wf(),
        m.clone_into_zero(id).segment(0) == m.segment(id),
        m.clone_into_zero(id).free == m.free,
        forall|j: u32| m.clone_into_zero(id).mapped(j) == m.mapped(j),
        forall|j: u32| j != 0 && m.mapped(j) ==> m.clone_into_zero(id).segment(j) == m.segment(j),
{
    let after = m.clone_into_zero(id);
    assert forall|j: u32| after.mapped(j) == m.mapped(j) by {}
    assert forall|j: u32| j < after.segs.len() && !after.mapped(j) implies #[trigger] after.released(
        j,
    ) by {
        assert(m.released(j));
    }
}

/// A load that follows a successful store to the same segment and offset
/// gives the stored word; a load from any other place gives what it gave
/// before the store.
pub proof fn lemma_load_after_store(m: MemoryState, id: u32, off: u32, val: u32, id2: u32, off2: u32)
    requires
        m.wf(),
        m.store_result(id, off) is Ok,
    ensures
        m.store(id, off, val).load(id, off) == Ok::<u32, MachError>(val),
        (id2 != id || off2 != off) ==> m.store(id, off, val).load(id2, off2) == m.load(id2, off2),
{
}

/// A segment allocated with length 0 is mapped, and no load from it and no
/// store to it succeeds, whatever the offset.
pub proof fn lemma_empty_segment_is_never_readable(m: MemoryState, off: u32, val: u32)
    requires
        m.wf(),
        m.next_id() is Some,
    ensures
        m.allocate(0).mapped(m.next_id().unwrap()),
        m.allocate(0).load(m.next_id().unwrap(), off) == Err::<u32, MachError>(
            MachError::LoadOutOfSegment,
        ),
        m.allocate(0).store_result(m.next_id().unwrap(), off) == Err::<(), MachError>(
            MachError::StoreOutOfSegment,
        ),
        m.allocate(0).store(m.next_id().unwrap(), off, val) == m.allocate(0),
{
}

/// An identifier that is released and then allocated again is the one that
/// the allocation gives, where no other identifier waited before it.
pub proof fn lemma_released_identifier_is_reused(m: MemoryState, id: u32, len: nat)
    requires
        m.wf(),
        m.can_deallocate(id),
        m.free.len() == 0,
    ensures
        m.deallocate(id).next_id() == Some(id),
        m.deallocate(id).allocate(len).mapped(id),
{
    lemma_deallocate_keeps_wf(m, id);
}

} // verus!
