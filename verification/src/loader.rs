use vstd::prelude::*;

verus! {

/// The word that four bytes spell, the most significant byte first.
pub open spec fn be_word(b0: u8, b1: u8, b2: u8, b3: u8) -> u32 {
    (b0 * 0x100_0000 + b1 * 0x1_0000 + b2 * 0x100 + b3) as u32
}

/// The words of a program file: every four bytes spell one word, big-endian,
/// in the order of the file. There is no header and nothing else.
pub open spec fn program_words(bytes: Seq<u8>) -> Seq<u32> {
    Seq::new(
        bytes.len() / 4,
        |i: int| be_word(bytes[4 * i], bytes[4 * i + 1], bytes[4 * i + 2], bytes[4 * i + 3]),
    )
}

/// Turns the bytes of a program file into the words of segment 0. A file
/// whose length is not a multiple of four bytes is no program.
pub fn parse_program(bytes: &Vec<u8>) -> (program: Option<Vec<u32>>)
    ensures
        bytes.len() % 4 == 0 ==> (program matches Some(words) && words@ == program_words(bytes@)),
        bytes.len() % 4 != 0 ==> program is None,
{
    if bytes.len() % 4 != 0 {
        return None;
    }
    let count: usize = bytes.len() / 4;
    let mut words: Vec<u32> = Vec::new();
    let mut i: usize = 0;
    while i < count
        invariant
            count == bytes.len() / 4,
            i <= count,
            words.len() == i,
            forall|k: int| 0 <= k < i ==> words[k] == program_words(bytes@)[k],
        decreases count - i,
    {
        let b0: u32 = bytes[4 * i] as u32;
        let b1: u32 = bytes[4 * i + 1] as u32;
        let b2: u32 = bytes[4 * i + 2] as u32;
        let b3: u32 = bytes[4 * i + 3] as u32;
        words.push(b0 * 0x100_0000 + b1 * 0x1_0000 + b2 * 0x100 + b3);
        i = i + 1;
    }
    Some(words)
}

} // verus!
