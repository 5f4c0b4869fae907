use universal_machine::error::MachError;
use universal_machine::memory::Memory;

#[test]
fn new_memory_holds_the_program_in_segment_zero() {
    let m = Memory::new(vec![10, 20, 30]);
    assert_eq!(m.get_i(0), Ok(10));
    assert_eq!(m.get_i(2), Ok(30));
    assert_eq!(m.get(0, 1), Ok(20));
    assert_eq!(m.get_i(3), Err(MachError::OutOfBound));
    assert_eq!(m.get(0, 3), Err(MachError::LoadOutOfSegment));
    assert_eq!(m.get(1, 0), Err(MachError::LoadUnmappedSegment));
}

#[test]
fn empty_program_has_nothing_to_fetch() {
    let m = Memory::new(Vec::new());
    assert_eq!(m.get_i(0), Err(MachError::OutOfBound));
    assert_eq!(m.get(0, 0), Err(MachError::LoadOutOfSegment));
}

#[test]
fn allocate_returns_fresh_nonzero_identifiers() {
    let mut m = Memory::new(vec![0]);
    assert_eq!(m.allocate(4), Ok(1));
    assert_eq!(m.allocate(2), Ok(2));
    assert_eq!(m.allocate(0), Ok(3));
    // each is mapped, zeroed and of the asked length
    assert_eq!(m.get(1, 0), Ok(0));
    assert_eq!(m.get(1, 3), Ok(0));
    assert_eq!(m.get(1, 4), Err(MachError::LoadOutOfSegment));
    assert_eq!(m.get(2, 1), Ok(0));
    assert_eq!(m.get(2, 2), Err(MachError::LoadOutOfSegment));
}

#[test]
fn allocate_of_length_zero_is_mapped_but_never_readable() {
    let mut m = Memory::new(vec![0]);
    let id = m.allocate(0).unwrap();
    assert_ne!(id, 0);
    assert_eq!(m.get(id, 0), Err(MachError::LoadOutOfSegment));
    assert_eq!(m.get(id, u32::MAX), Err(MachError::LoadOutOfSegment));
    assert_eq!(m.set(id, 0, 1), Err(MachError::StoreOutOfSegment));
    // mapped all the same: it can be released, once
    assert_eq!(m.deallocate(id), Ok(()));
    assert_eq!(m.deallocate(id), Err(MachError::NotFoundUnmapSegment));
}

#[test]
fn store_then_load_returns_the_stored_word() {
    let mut m = Memory::new(vec![1, 2, 3]);
    let id = m.allocate(5).unwrap();
    assert_eq!(m.set(id, 4, 0xCAFE_F00D), Ok(()));
    assert_eq!(m.get(id, 4), Ok(0xCAFE_F00D));
    assert_eq!(m.get(id, 3), Ok(0));
    assert_eq!(m.set(0, 1, 99), Ok(()));
    assert_eq!(m.get(0, 1), Ok(99));
    assert_eq!(m.get_i(1), Ok(99));
    assert_eq!(m.get(0, 0), Ok(1));
    assert_eq!(m.get(0, 2), Ok(3));
}

#[test]
fn store_faults_change_nothing() {
    let mut m = Memory::new(vec![1, 2, 3]);
    assert_eq!(m.set(0, 3, 9), Err(MachError::StoreOutOfSegment));
    assert_eq!(m.set(1, 0, 9), Err(MachError::StoreUnmappedSegment));
    assert_eq!(m.set(u32::MAX, 0, 9), Err(MachError::StoreUnmappedSegment));
    assert_eq!(m.get(0, 0), Ok(1));
    assert_eq!(m.get(0, 1), Ok(2));
    assert_eq!(m.get(0, 2), Ok(3));
    assert_eq!(m.allocate(1), Ok(1));
}

#[test]
fn deallocate_unmaps_the_segment() {
    let mut m = Memory::new(vec![0]);
    let id = m.allocate(3).unwrap();
    assert_eq!(m.set(id, 0, 5), Ok(()));
    assert_eq!(m.deallocate(id), Ok(()));
    assert_eq!(m.get(id, 0), Err(MachError::LoadUnmappedSegment));
    assert_eq!(m.set(id, 0, 5), Err(MachError::StoreUnmappedSegment));
}

#[test]
fn deallocate_refuses_segment_zero_and_unmapped_identifiers() {
    let mut m = Memory::new(vec![7]);
    assert_eq!(m.deallocate(0), Err(MachError::NotFoundUnmapSegment));
    assert_eq!(m.deallocate(1), Err(MachError::NotFoundUnmapSegment));
    assert_eq!(m.deallocate(u32::MAX), Err(MachError::NotFoundUnmapSegment));
    assert_eq!(m.get(0, 0), Ok(7));
    let id = m.allocate(1).unwrap();
    assert_eq!(m.deallocate(id), Ok(()));
    assert_eq!(m.deallocate(id), Err(MachError::NotFoundUnmapSegment));
}

#[test]
fn released_identifiers_are_reused_before_fresh_ones() {
    let mut m = Memory::new(vec![0]);
    assert_eq!(m.allocate(1), Ok(1));
    assert_eq!(m.allocate(1), Ok(2));
    assert_eq!(m.allocate(1), Ok(3));
    assert_eq!(m.deallocate(2), Ok(()));
    assert_eq!(m.allocate(8), Ok(2));
    assert_eq!(m.allocate(8), Ok(4));
}

#[test]
fn released_identifiers_come_back_first_in_first_out() {
    let mut m = Memory::new(vec![0]);
    for expected in 1..=4u32 {
        assert_eq!(m.allocate(1), Ok(expected));
    }
    assert_eq!(m.deallocate(3), Ok(()));
    assert_eq!(m.deallocate(1), Ok(()));
    assert_eq!(m.deallocate(4), Ok(()));
    assert_eq!(m.allocate(0), Ok(3));
    assert_eq!(m.allocate(0), Ok(1));
    assert_eq!(m.allocate(0), Ok(4));
    assert_eq!(m.allocate(0), Ok(5));
}

#[test]
fn reused_segment_is_zeroed_and_has_the_new_length() {
    let mut m = Memory::new(vec![0]);
    let id = m.allocate(2).unwrap();
    assert_eq!(m.set(id, 0, 11), Ok(()));
    assert_eq!(m.set(id, 1, 12), Ok(()));
    assert_eq!(m.deallocate(id), Ok(()));
    assert_eq!(m.allocate(4), Ok(id));
    for off in 0..4 {
        assert_eq!(m.get(id, off), Ok(0));
    }
    assert_eq!(m.get(id, 4), Err(MachError::LoadOutOfSegment));
}

#[test]
fn clone_into_zero_copies_the_segment() {
    let mut m = Memory::new(vec![1, 2, 3]);
    let id = m.allocate(2).unwrap();
    assert_eq!(m.set(id, 0, 40), Ok(()));
    assert_eq!(m.set(id, 1, 50), Ok(()));
    assert_eq!(m.clone_into_zero(id), Ok(()));
    assert_eq!(m.get_i(0), Ok(40));
    assert_eq!(m.get_i(1), Ok(50));
    assert_eq!(m.get_i(2), Err(MachError::OutOfBound));
    // the source is unaffected, and the copy does not alias it
    assert_eq!(m.set(0, 0, 41), Ok(()));
    assert_eq!(m.get(id, 0), Ok(40));
    assert_eq!(m.get(id, 1), Ok(50));
    assert_eq!(m.set(id, 1, 51), Ok(()));
    assert_eq!(m.get(0, 1), Ok(50));
}

#[test]
fn clone_into_zero_of_segment_zero_changes_nothing() {
    let mut m = Memory::new(vec![1, 2, 3]);
    assert_eq!(m.clone_into_zero(0), Ok(()));
    assert_eq!(m.get_i(0), Ok(1));
    assert_eq!(m.get_i(1), Ok(2));
    assert_eq!(m.get_i(2), Ok(3));
    assert_eq!(m.get_i(3), Err(MachError::OutOfBound));
}

#[test]
fn clone_into_zero_of_unmapped_segment_faults() {
    let mut m = Memory::new(vec![1, 2, 3]);
    assert_eq!(m.clone_into_zero(1), Err(MachError::NotFoundLoadProgramSegment));
    let id = m.allocate(1).unwrap();
    assert_eq!(m.deallocate(id), Ok(()));
    assert_eq!(m.clone_into_zero(id), Err(MachError::NotFoundLoadProgramSegment));
    assert_eq!(m.get_i(0), Ok(1));
    assert_eq!(m.get_i(2), Ok(3));
}

#[test]
fn clone_into_zero_of_empty_segment_empties_the_program() {
    let mut m = Memory::new(vec![1, 2, 3]);
    let id = m.allocate(0).unwrap();
    assert_eq!(m.clone_into_zero(id), Ok(()));
    assert_eq!(m.get_i(0), Err(MachError::OutOfBound));
    // segment 0 is still mapped
    assert_eq!(m.deallocate(0), Err(MachError::NotFoundUnmapSegment));
    assert_eq!(m.get(0, 0), Err(MachError::LoadOutOfSegment));
}
