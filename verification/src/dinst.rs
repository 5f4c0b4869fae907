use vstd::arithmetic::power2::{lemma2_to64, pow2};
use vstd::bits::{
    lemma_u32_low_bits_mask_is_mod, lemma_u32_pow2_no_overflow, lemma_u32_shl_is_mul,
    lemma_u32_shr_is_div,
};
use vstd::prelude::*;

use crate::error::MachError;
use crate::machine::{Action, UM};
use crate::registers::names_register;

verus! {

type Umi = u32;

/// A field of a 32-bit word: `width` bits, the lowest of them bit `lsb`.
pub struct Field {
    pub width: u32,
    pub lsb: u32,
}

impl Field {
    /// Both numbers are bit positions of a 32-bit word.
    pub open spec fn wf(&self) -> bool {
        self.width < 32 && self.lsb < 32
    }

    /// Register A of a three-register instruction: bits 6 to 8.
    pub fn ra() -> (field: Field)
        ensures
            field.width == 3,
            field.lsb == 6,
    {
        Field { width: 3, lsb: 6 }
    }

    /// Register B of a three-register instruction: bits 3 to 5.
    pub fn rb() -> (field: Field)
        ensures
            field.width == 3,
            field.lsb == 3,
    {
        Field { width: 3, lsb: 3 }
    }

    /// Register C of a three-register instruction: bits 0 to 2.
    pub fn rc() -> (field: Field)
        ensures
            field.width == 3,
            field.lsb == 0,
    {
        Field { width: 3, lsb: 0 }
    }

    /// The register of a load-immediate instruction: bits 25 to 27.
    pub fn rl() -> (field: Field)
        ensures
            field.width == 3,
            field.lsb == 25,
    {
        Field { width: 3, lsb: 25 }
    }

    /// The value of a load-immediate instruction: bits 0 to 24.
    pub fn vl() -> (field: Field)
        ensures
            field.width == 25,
            field.lsb == 0,
    {
        Field { width: 25, lsb: 0 }
    }

    /// The opcode: bits 28 to 31.
    pub fn op() -> (field: Field)
        ensures
            field.width == 4,
            field.lsb == 28,
    {
        Field { width: 4, lsb: 28 }
    }
}

/// The number that the `width` bits of `word` from bit `lsb` upwards spell.
pub open spec fn field_bits(word: u32, lsb: u32, width: u32) -> u32 {
    ((word as nat / pow2(lsb as nat)) % pow2(width as nat)) as u32
}

/// The word whose lowest `bits` bits are one and whose other bits are zero.
fn mask(bits: u32) -> (m: u32)
    requires
        bits < 32,
    ensures
        m == pow2(bits as nat) - 1,
{
    proof {
        lemma_u32_pow2_no_overflow(bits as nat);
        lemma_u32_shl_is_mul(1, bits);
    }
    (1u32 << bits) - 1
}

/// returns a u32 bit word based on its field from an instruction word
pub fn get(field: &Field, instruction: Umi) -> (bits: Option<u32>)
    requires
        field.wf(),
    ensures
        bits == Some(field_bits(instruction, field.lsb, field.width)),
{
    let shifted: u32 = instruction >> field.lsb;
    let m: u32 = mask(field.width);
    proof {
        lemma_u32_shr_is_div(instruction, field.lsb);
        lemma_u32_pow2_no_overflow(field.width as nat);
        lemma_u32_low_bits_mask_is_mod(shifted, field.width as nat);
    }
    Some(shifted & m)
}

/// returns the opcode
pub fn op(instruction: Umi) -> (opcode: u32)
    ensures
        opcode == instruction / 0x1000_0000,
        opcode < 16,
{
    let opcode: u32 = instruction >> 28;
    proof {
        assert(instruction >> 28 == instruction / 0x1000_0000) by (bit_vector);
    }
    opcode
}

/// structure containing a parsed instruction
#[derive(Clone, Copy, Debug, PartialEq, Eq, Structural)]
pub struct Dinst {
    pub op: u32,
    pub a: Option<u32>,
    pub b: Option<u32>,
    pub c: Option<u32>,
    pub val: Option<u32>,
}

/// The instruction that `word` codes for, if it codes for one. Only the
/// fields that the opcode uses are read; the others are `None`.
pub open spec fn decoded(word: u32) -> Option<Dinst> {
    let op = word / 0x1000_0000;
    let a = Some((word / 64) % 8);
    let b = Some((word / 8) % 8);
    let c = Some(word % 8);
    if op <= 6 {
        Some(Dinst { op, a, b, c, val: None })
    } else if op == 7 {
        Some(Dinst { op, a: None, b: None, c: None, val: None })
    } else if op == 8 || op == 12 {
        Some(Dinst { op, a: None, b, c, val: None })
    } else if op <= 11 {
        Some(Dinst { op, a: None, b: None, c, val: None })
    } else if op == 13 {
        Some(
            Dinst {
                op,
                a: Some((word / 0x200_0000) % 8),
                b: None,
                c: None,
                val: Some(word % 0x200_0000),
            },
        )
    } else {
        None
    }
}

impl Dinst {
    /// Whether the fields that the opcode uses are there, each register below
    /// 8 and the immediate value below 2^25.
    pub open spec fn wf(&self) -> bool {
        let three = names_register(self.a) && names_register(self.b) && names_register(self.c);
        if self.op <= 6 {
            three
        } else if self.op == 7 {
            true
        } else if self.op == 8 || self.op == 12 {
            names_register(self.b) && names_register(self.c)
        } else if self.op <= 11 {
            names_register(self.c)
        } else if self.op == 13 {
            names_register(self.a) && (self.val matches Some(v) && v < 0x200_0000)
        } else {
            false
        }
    }

    /// Parses an instruction word: the opcode, then the fields of its format.
    /// There is no instruction for the opcodes 14 and 15.
    pub fn decode(instruction: Umi) -> (inst: Option<Dinst>)
        ensures
            inst == decoded(instruction),
            inst matches Some(i) ==> i.wf(),
    {
        let opcode: u32 = op(instruction);
        proof {
            lemma2_to64();
        }
        if opcode <= 6 {
            Some(
                Dinst {
                    op: opcode,
                    a: get(&Field::ra(), instruction),
                    b: get(&Field::rb(), instruction),
                    c: get(&Field::rc(), instruction),
                    val: None,
                },
            )
        } else if opcode == 7 {
            Some(Dinst { op: opcode, a: None, b: None, c: None, val: None })
        } else if opcode == 8 || opcode == 12 {
            Some(
                Dinst {
                    op: opcode,
                    a: None,
                    b: get(&Field::rb(), instruction),
                    c: get(&Field::rc(), instruction),
                    val: None,
                },
            )
        } else if opcode <= 11 {
            Some(Dinst { op: opcode, a: None, b: None, c: get(&Field::rc(), instruction), val: None })
        } else if opcode == 13 {
            Some(
                Dinst {
                    op: opcode,
                    a: get(&Field::rl(), instruction),
                    b: None,
                    c: None,
                    val: get(&Field::vl(), instruction),
                },
            )
        } else {
            None
        }
    }

    /// parse an instruction with the op, a, b, c, val, makes a Dinst struct out of it and calls the appropiate machine function for execution
    ///
    /// This is one step of the engine of `machine`: the same as
    /// `machine.disassemble()`.
    pub fn disassemble(machine: &mut UM) -> (result: Result<Action, MachError>)
        requires
            old(machine).wf(),
        ensures
            final(machine).wf(),
            final(machine)@ == old(machine)@.step().0,
            result == old(machine)@.step().1,
    {
        machine.disassemble()
    }
}

/// Every instruction that a word decodes to has the fields of its opcode.
pub proof fn lemma_decoded_is_wf(word: u32)
    ensures
        decoded(word) matches Some(inst) ==> inst.wf() && inst.op == word / 0x1000_0000,
        decoded(word) is None <==> word / 0x1000_0000 >= 14,
{
}

/// The word of the three-register instruction `op` on the registers `a`, `b`, `c`.
pub open spec fn three_register_word(op: u32, a: u32, b: u32, c: u32) -> u32
    recommends
        op <= 12,
        a < 8,
        b < 8,
        c < 8,
{
    (op * 0x1000_0000 + a * 64 + b * 8 + c) as u32
}

/// The word of the instruction that loads `val` into register `a`.
pub open spec fn load_immediate_word(a: u32, val: u32) -> u32
    recommends
        a < 8,
        val < 0x200_0000,
{
    (13 * 0x1000_0000 + a * 0x200_0000 + val) as u32
}

/// Decoding reads back the opcode and the registers that a three-register
/// word was made of, whatever stands in its unused bits 9 to 27.
pub proof fn lemma_decode_three_register(op: u32, a: u32, b: u32, c: u32, unused: u32)
    requires
        op <= 12,
        a < 8,
        b < 8,
        c < 8,
        unused < 0x8_0000,
    ensures
        decoded((three_register_word(op, a, b, c) + unused * 512) as u32) matches Some(inst) && {
            &&& inst.op == op
            &&& inst.wf()
            &&& op <= 6 ==> inst.a == Some(a)
            &&& (op <= 6 || op == 8 || op == 12) ==> inst.b == Some(b)
            &&& op != 7 ==> inst.c == Some(c)
        },
{
    assert({
        let w = (op * 0x1000_0000 + a * 64 + b * 8 + c + unused * 512) as u32;
        w / 0x1000_0000 == op && (w / 64) % 8 == a && (w / 8) % 8 == b && w % 8 == c
    }) by (bit_vector)
        requires
            op <= 12,
            a < 8,
            b < 8,
            c < 8,
            unused < 0x8_0000,
    ;
}

/// Decoding reads back the register and the value that a load-immediate word
/// was made of, for every value below 2^25.
pub proof fn lemma_decode_load_immediate(a: u32, val: u32)
    requires
        a < 8,
        val < 0x200_0000,
    ensures
        decoded(load_immediate_word(a, val)) == Some(
            Dinst { op: 13, a: Some(a), b: None, c: None, val: Some(val) },
        ),
{
}

} // verus!
