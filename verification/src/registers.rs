use vstd::prelude::*;

verus! {

/// The register file of the machine: eight 32-bit words.
pub struct CPU {
    registers: Vec<u32>,
}

impl View for CPU {
    type V = Seq<u32>;

    closed spec fn view(&self) -> Seq<u32> {
        self.registers@
    }
}

/// Whether `register` names one of the eight registers.
pub open spec fn names_register(register: Option<u32>) -> bool {
    register matches Some(r) && r < 8
}

impl CPU {
    /// A register file holds exactly eight words.
    pub open spec fn wf(&self) -> bool {
        self@.len() == 8
    }

    /// A register file with every register zero.
    pub fn new() -> (cpu: Self)
        ensures
            cpu.wf(),
            forall|i: int| 0 <= i < 8 ==> cpu@[i] == 0,
    {
        CPU { registers: vec![0u32; 8] }
    }

    /// Replaces the word in `register` with `val`; the other registers keep theirs.
    pub fn write(&mut self, val: u32, register: Option<u32>)
        requires
            old(self).wf(),
            names_register(register),
        ensures
            final(self).wf(),
            final(self)@ == old(self)@.update(register.unwrap() as int, val),
    {
        let r: usize = register.unwrap() as usize;
        self.registers[r] = val;
    }

    /// The word in `register`.
    pub fn read(&self, register: Option<u32>) -> (val: u32)
        requires
            self.wf(),
            names_register(register),
        ensures
            val == self@[register.unwrap() as int],
    {
        self.registers[register.unwrap() as usize]
    }
}

/// A register read that directly follows a write to the same register gives
/// the written word, and a write leaves every other register as it was.
pub proof fn lemma_read_after_write(regs: Seq<u32>, register: u32, other: u32, val: u32)
    requires
        regs.len() == 8,
        register < 8,
        other < 8,
    ensures
        regs.update(register as int, val).len() == 8,
        regs.update(register as int, val)[register as int] == val,
        other != register ==> regs.update(register as int, val)[other as int] == regs[other as int],
{
}

} // verus!
