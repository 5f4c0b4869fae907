use vstd::prelude::*;

verus! {

/// The fatal conditions of the machine. Each one ends execution; none is
/// retried and nothing is rolled back.
#[derive(Clone, Copy, Debug, PartialEq, Eq, Structural)]
pub enum MachError {
    /// At the beginning of a cycle the program counter points outside segment 0.
    OutOfBound,
    /// The fetched word does not code for an instruction: its opcode is 14 or 15.
    UnvalidInstruction,
    /// A segmented load names a segment that is not mapped.
    LoadUnmappedSegment,
    /// A segmented load names an offset at or past the end of a mapped segment.
    LoadOutOfSegment,
    /// A segmented store names a segment that is not mapped.
    StoreUnmappedSegment,
    /// A segmented store names an offset at or past the end of a mapped segment.
    StoreOutOfSegment,
    /// An unmap names segment 0 or a segment that is not mapped.
    NotFoundUnmapSegment,
    /// A division whose divisor is zero.
    DivisionByZero,
    /// A program load from a segment that is not mapped.
    NotFoundLoadProgramSegment,
    /// An output of a value larger than 255.
    UnvalidOutput,
    /// The input or the output stream of the embedder failed.
    IoFailure,
    /// A map when no identifier has been released and all 2^32 are in use.
    SegmentSpaceExhausted,
}

} // verus!
