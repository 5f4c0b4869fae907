//! A 32-bit Universal Machine: eight registers, a heap of word segments whose
//! identifiers are recycled, and a fetch-decode-execute engine over fourteen
//! opcodes. The engine performs no I/O itself: a cycle reports what the
//! embedder has to do (emit a byte, supply a byte, stop).

pub mod error;
pub mod registers;
pub mod memory;
pub mod dinst;
pub mod machine;
pub mod loader;
