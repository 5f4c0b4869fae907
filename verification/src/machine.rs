use vstd::prelude::*;

use crate::dinst::{decoded, load_immediate_word, Dinst};
use crate::error::MachError;
use crate::memory::{
    lemma_allocate_keeps_wf, lemma_clone_into_zero_keeps_wf, lemma_deallocate_keeps_wf,
    lemma_store_keeps_wf, Memory, MemoryState,
};
use crate::registers::{names_register, CPU};

verus! {

/// The three states of the engine. `Halted` and `Faulted` are terminal.
#[derive(Clone, Copy, Debug, PartialEq, Eq, Structural)]
pub enum Status {
    Running,
    Halted,
    Faulted(MachError),
}

/// What a cycle leaves for the embedder to do.
#[derive(Clone, Copy, Debug, PartialEq, Eq, Structural)]
pub enum Action {
    /// Nothing: run the next cycle.
    Continue,
    /// Emit this byte on the output stream.
    Output(u8),
    /// Read one byte from the input stream and hand it, or the end of the
    /// stream, to `UM::input` together with this instruction.
    Input(Dinst),
    /// The program has halted: flush the output and stop.
    Halt,
}

/// What the embedder does to a machine between two looks at it.
pub enum Event {
    /// It asks for the next step.
    Step,
    /// It hands in what an input instruction asked for: a byte, or the end
    /// of the stream.
    Input(Dinst, Option<u8>),
    /// It reports that one of its streams has failed.
    IoFailure,
}

/// The word that an input instruction loads at the end of the input stream:
/// every bit is 1.
pub open spec fn end_of_input() -> u32 {
    0xFFFF_FFFF
}

/// The machine as a mathematical value.
pub struct UMState {
    /// The eight registers.
    pub regs: Seq<u32>,
    /// The segmented heap.
    pub mem: MemoryState,
    /// The offset in segment 0 of the next instruction.
    pub pc: nat,
    /// The state of the engine.
    pub status: Status,
}

impl UMState {
    /// The machine before its first cycle: `program` is segment 0, every
    /// register and the program counter are zero, the free list is empty.
    pub open spec fn initial(program: Seq<u32>) -> UMState {
        UMState {
            regs: Seq::new(8, |i: int| 0u32),
            mem: MemoryState::initial(program),
            pc: 0,
            status: Status::Running,
        }
    }

    /// There are eight registers, and the heap invariants hold.
    pub open spec fn wf(self) -> bool {
        self.regs.len() == 8 && self.mem.wf()
    }

    /// The word in `register`.
    pub open spec fn reg(self, register: Option<u32>) -> u32
        recommends
            names_register(register),
    {
        self.regs[register.unwrap() as int]
    }

    /// This machine with `val` in `register`.
    pub open spec fn write(self, register: Option<u32>, val: u32) -> UMState
        recommends
            names_register(register),
    {
        UMState { regs: self.regs.update(register.unwrap() as int, val), ..self }
    }

    /// This machine with the heap `mem`.
    pub open spec fn with_mem(self, mem: MemoryState) -> UMState {
        UMState { mem, ..self }
    }

    /// This machine with the program counter at `pc`.
    pub open spec fn with_pc(self, pc: nat) -> UMState {
        UMState { pc, ..self }
    }

    /// This machine in the state `status`.
    pub open spec fn with_status(self, status: Status) -> UMState {
        UMState { status, ..self }
    }

    /// The body of the instruction `inst`: the machine after it, and what it
    /// leaves to the embedder or the fault that it ends in. A fault changes
    /// nothing.
    pub open spec fn execute(self, inst: Dinst) -> (UMState, Result<Action, MachError>)
        recommends
            inst.wf(),
    {
        let ra = self.reg(inst.a);
        let rb = self.reg(inst.b);
        let rc = self.reg(inst.c);
        let next = Ok::<Action, MachError>(Action::Continue);
        if inst.op == 0 {
            (
                if rc != 0 {
                    self.write(inst.a, rb)
                } else {
                    self
                },
                next,
            )
        } else if inst.op == 1 {
            match self.mem.load(rb, rc) {
                Ok(word) => (self.write(inst.a, word), next),
                Err(e) => (self, Err(e)),
            }
        } else if inst.op == 2 {
            match self.mem.store_result(ra, rb) {
                Ok(_) => (self.with_mem(self.mem.store(ra, rb, rc)), next),
                Err(e) => (self, Err(e)),
            }
        } else if inst.op == 3 {
            (self.write(inst.a, ((rb + rc) % 0x1_0000_0000) as u32), next)
        } else if inst.op == 4 {
            (self.write(inst.a, ((rb * rc) % 0x1_0000_0000) as u32), next)
        } else if inst.op == 5 {
            if rc == 0 {
                (self, Err(MachError::DivisionByZero))
            } else {
                (self.write(inst.a, (rb / rc) as u32), next)
            }
        } else if inst.op == 6 {
            (self.write(inst.a, !(rb & rc)), next)
        } else if inst.op == 7 {
            (self, Ok(Action::Halt))
        } else if inst.op == 8 {
            match self.mem.next_id() {
                Some(id) => (self.with_mem(self.mem.allocate(rc as nat)).write(inst.b, id), next),
                None => (self, Err(MachError::SegmentSpaceExhausted)),
            }
        } else if inst.op == 9 {
            if self.mem.can_deallocate(rc) {
                (self.with_mem(self.mem.deallocate(rc)), next)
            } else {
                (self, Err(MachError::NotFoundUnmapSegment))
            }
        } else if inst.op == 10 {
            if rc <= 255 {
                (self, Ok(Action::Output(rc as u8)))
            } else {
                (self, Err(MachError::UnvalidOutput))
            }
        } else if inst.op == 11 {
            (self, Ok(Action::Input(inst)))
        } else if inst.op == 12 {
            if rb == 0 {
                (self.with_pc(rc as nat), next)
            } else if self.mem.mapped(rb) {
                (self.with_mem(self.mem.clone_into_zero(rb)).with_pc(rc as nat), next)
            } else {
                (self, Err(MachError::NotFoundLoadProgramSegment))
            }
        } else {
            (self.write(inst.a, inst.val.unwrap()), next)
        }
    }

    /// One cycle of a running machine, whatever its state says: fetch the
    /// word at the program counter, decode it, advance the program counter by
    /// one, execute the instruction. A fault at fetch or at decode leaves the
    /// program counter where it was.
    pub open spec fn cycle(self) -> (UMState, Result<Action, MachError>) {
        match self.mem.fetch(self.pc) {
            Err(e) => (self, Err(e)),
            Ok(word) => match decoded(word) {
                None => (self, Err(MachError::UnvalidInstruction)),
                Some(inst) => self.with_pc(self.pc + 1).execute(inst),
            },
        }
    }

    /// The state that the outcome of a cycle puts a running engine in.
    pub open spec fn status_after(result: Result<Action, MachError>) -> Status {
        match result {
            Ok(Action::Halt) => Status::Halted,
            Ok(_) => Status::Running,
            Err(e) => Status::Faulted(e),
        }
    }

    /// One step of the engine. A running machine runs one cycle, and halts or
    /// faults with it. A halted machine stays as it is and reports the halt
    /// again; a faulted one stays as it is and reports its fault again.
    pub open spec fn step(self) -> (UMState, Result<Action, MachError>) {
        match self.status {
            Status::Running => {
                let (after, result) = self.cycle();
                (after.with_status(Self::status_after(result)), result)
            },
            Status::Halted => (self, Ok(Action::Halt)),
            Status::Faulted(e) => (self, Err(e)),
        }
    }

    /// The machine after the input that `inst` asked for has come: `byte`, or
    /// the end of the stream. A machine that is not running stays as it is.
    pub open spec fn input(self, inst: Dinst, byte: Option<u8>) -> UMState
        recommends
            names_register(inst.c),
    {
        if self.status == Status::Running {
            self.write(
                inst.c,
                match byte {
                    Some(b) => b as u32,
                    None => end_of_input(),
                },
            )
        } else {
            self
        }
    }

    /// The machine after a stream of the embedder has failed: faulted, if it
    /// was running.
    pub open spec fn io_failure(self) -> UMState {
        if self.status == Status::Running {
            self.with_status(Status::Faulted(MachError::IoFailure))
        } else {
            self
        }
    }

    /// The machine after `event`. An input for a register that does not
    /// exist is no input.
    pub open spec fn after(self, event: Event) -> UMState {
        match event {
            Event::Step => self.step().0,
            Event::Input(inst, byte) => if names_register(inst.c) {
                self.input(inst, byte)
            } else {
                self
            },
            Event::IoFailure => self.io_failure(),
        }
    }

    /// The machine after the events of `trace`, in their order.
    pub open spec fn after_all(self, trace: Seq<Event>) -> UMState
        decreases trace.len(),
    {
        if trace.len() == 0 {
            self
        } else {
            self.after_all(trace.drop_last()).after(trace.last())
        }
    }
}

/// Universal machine u32 bits structure containing, a memory, registers and a program counter
pub struct UM {
    registers: CPU,
    memory: Memory,
    prog_counter: usize,
    status: Status,
}

impl View for UM {
    type V = UMState;

    closed spec fn view(&self) -> UMState {
        UMState {
            regs: self.registers@,
            mem: self.memory@,
            pc: self.prog_counter as nat,
            status: self.status,
        }
    }
}

impl UM {
    /// The invariants of the machine hold.
    pub open spec fn wf(&self) -> bool {
        self@.wf()
    }

    /// function constructor for a new Universial machine in its initial state
    pub fn new(instructions: Vec<u32>) -> (um: Self)
        ensures
            um.wf(),
            um@ == UMState::initial(instructions@),
    {
        let um = UM {
            registers: CPU::new(),
            memory: Memory::new(instructions),
            prog_counter: 0,
            status: Status::Running,
        };
        proof {
            assert(um@.regs =~= Seq::new(8, |i: int| 0u32));
        }
        um
    }

    /// The offset in segment 0 of the next instruction.
    pub fn prog_counter(&self) -> (pc: usize)
        ensures
            pc == self@.pc,
    {
        self.prog_counter
    }

    /// The state of the engine.
    pub fn status(&self) -> (status: Status)
        ensures
            status == self@.status,
    {
        self.status
    }

    /// The word at `offset` of the program segment.
    pub fn get_i(&self, offset: usize) -> (word: Result<u32, MachError>)
        requires
            self.wf(),
        ensures
            word == self@.mem.fetch(offset as nat),
            word is Ok ==> offset < usize::MAX,
    {
        self.memory.get_i(offset)
    }

    fn allocate(&mut self, len: u32) -> (id: Result<u32, MachError>)
        requires
            old(self).wf(),
        ensures
            final(self).wf(),
            final(self)@ == old(self)@.with_mem(old(self)@.mem.allocate(len as nat)),
            match id {
                Ok(id) => old(self)@.mem.next_id() == Some(id),
                Err(e) => old(self)@.mem.next_id() is None && e == MachError::SegmentSpaceExhausted,
            },
    {
        self.memory.allocate(len)
    }

    fn deallocate(&mut self, id: u32) -> (done: Result<(), MachError>)
        requires
            old(self).wf(),
        ensures
            final(self).wf(),
            match done {
                Ok(_) => old(self)@.mem.can_deallocate(id) && final(self)@ == old(self)@.with_mem(
                    old(self)@.mem.deallocate(id),
                ),
                Err(e) => !old(self)@.mem.can_deallocate(id) && e == MachError::NotFoundUnmapSegment
                    && final(self)@ == old(self)@,
            },
    {
        self.memory.deallocate(id)
    }

    /// The word in `register`.
    pub fn read(&self, register: Option<u32>) -> (val: u32)
        requires
            self.wf(),
            names_register(register),
        ensures
            val == self@.reg(register),
    {
        self.registers.read(register)
    }

    fn write(&mut self, val: u32, register: Option<u32>)
        requires
            old(self).wf(),
            names_register(register),
        ensures
            final(self).wf(),
            final(self)@ == old(self)@.write(register, val),
    {
        self.registers.write(val, register)
    }

    /// The word at `offset` of segment `id`.
    pub fn get(&self, id: u32, offset: u32) -> (word: Result<u32, MachError>)
        requires
            self.wf(),
        ensures
            word == self@.mem.load(id, offset),
    {
        self.memory.get(id, offset)
    }

    /// if $r[C] != 0 then $r[A] := $r[B]
    fn cdmov(&mut self, inst: Dinst)
        requires
            old(self).wf(),
            names_register(inst.a),
            names_register(inst.b),
            names_register(inst.c),
        ensures
            final(self).wf(),
            final(self)@ == if old(self)@.reg(inst.c) != 0 {
                old(self)@.write(inst.a, old(self)@.reg(inst.b))
            } else {
                old(self)@
            },
    {
        let instb = self.read(inst.b);
        let instc = self.read(inst.c);

        if instc != 0 {
            self.write(instb, inst.a)
        }
    }

    /// $r[A] := $m[$r[B]][$r[C]]
    fn sload(&mut self, inst: Dinst) -> (done: Result<(), MachError>)
        requires
            old(self).wf(),
            names_register(inst.a),
            names_register(inst.b),
            names_register(inst.c),
        ensures
            final(self).wf(),
            match old(self)@.mem.load(old(self)@.reg(inst.b), old(self)@.reg(inst.c)) {
                Ok(word) => done is Ok && final(self)@ == old(self)@.write(inst.a, word),
                Err(e) => done == Err::<(), MachError>(e) && final(self)@ == old(self)@,
            },
    {
        let instb = self.read(inst.b);
        let instc = self.read(inst.c);

        match self.get(instb, instc) {
            Ok(got) => {
                self.write(got, inst.a);
                Ok(())
            },
            Err(e) => Err(e),
        }
    }

    /// $m[$r[A]][$r[B]] := $r[C]
    fn store(&mut self, inst: Dinst) -> (done: Result<(), MachError>)
        requires
            old(self).wf(),
            names_register(inst.a),
            names_register(inst.b),
            names_register(inst.c),
        ensures
            final(self).wf(),
            done == old(self)@.mem.store_result(old(self)@.reg(inst.a), old(self)@.reg(inst.b)),
            final(self)@ == old(self)@.with_mem(
                old(self)@.mem.store(
                    old(self)@.reg(inst.a),
                    old(self)@.reg(inst.b),
                    old(self)@.reg(inst.c),
                ),
            ),
    {
        let insta = self.read(inst.a);
        let instb = self.read(inst.b);
        let instc = self.read(inst.c);

        self.memory.set(insta, instb, instc)
    }

    /// $r[A] := ($r[B] + $r[C]) mod 2 ^ 32
    fn add(&mut self, inst: Dinst)
        requires
            old(self).wf(),
            names_register(inst.a),
            names_register(inst.b),
            names_register(inst.c),
        ensures
            final(self).wf(),
            final(self)@ == old(self)@.write(
                inst.a,
                ((old(self)@.reg(inst.b) + old(self)@.reg(inst.c)) % 0x1_0000_0000) as u32,
            ),
    {
        let instb = self.read(inst.b);
        let instc = self.read(inst.c);

        self.write(instb.wrapping_add(instc), inst.a)
    }

    /// $r[A] := ($r[B] × $r[C]) mod 2 ^ 32
    fn mult(&mut self, inst: Dinst)
        requires
            old(self).wf(),
            names_register(inst.a),
            names_register(inst.b),
            names_register(inst.c),
        ensures
            final(self).wf(),
            final(self)@ == old(self)@.write(
                inst.a,
                ((old(self)@.reg(inst.b) * old(self)@.reg(inst.c)) % 0x1_0000_0000) as u32,
            ),
    {
        let instb = self.read(inst.b);
        let instc = self.read(inst.c);

        self.write(instb.wrapping_mul(instc), inst.a)
    }

    /// $r[A] := ($r[B] ÷ $r[C]) (integer division)
    fn div(&mut self, inst: Dinst) -> (done: Result<(), MachError>)
        requires
            old(self).wf(),
            names_register(inst.a),
            names_register(inst.b),
            names_register(inst.c),
        ensures
            final(self).wf(),
            old(self)@.reg(inst.c) == 0 ==> done == Err::<(), MachError>(MachError::DivisionByZero)
                && final(self)@ == old(self)@,
            old(self)@.reg(inst.c) != 0 ==> done is Ok && final(self)@ == old(self)@.write(
                inst.a,
                (old(self)@.reg(inst.b) / old(self)@.reg(inst.c)) as u32,
            ),
    {
        let instb = self.read(inst.b);
        let instc = self.read(inst.c);

        if instc == 0 {
            return Err(MachError::DivisionByZero);
        }
        self.write(instb / instc, inst.a);
        Ok(())
    }

    /// $r[A] :=¬($r[B]∧$r[C])
    fn nand(&mut self, inst: Dinst)
        requires
            old(self).wf(),
            names_register(inst.a),
            names_register(inst.b),
            names_register(inst.c),
        ensures
            final(self).wf(),
            final(self)@ == old(self)@.write(
                inst.a,
                !(old(self)@.reg(inst.b) & old(self)@.reg(inst.c)),
            ),
    {
        let instb = self.read(inst.b);
        let instc = self.read(inst.c);

        self.write(!(instb & instc), inst.a)
    }

    /// Computation stops
    fn halt(&self) -> (action: Action)
        ensures
            action == Action::Halt,
    {
        Action::Halt
    }

    /// new segment is created with a number of words equal to the value in $r[C],
    /// words  initialized to zero
    /// the new segment is mapped as $m[$r[B]].
    /// A bit pattern that is not all zeroes and does not identify any currently mapped segment is placed in $r[B]
    fn map(&mut self, inst: Dinst) -> (done: Result<(), MachError>)
        requires
            old(self).wf(),
            names_register(inst.b),
            names_register(inst.c),
        ensures
            final(self).wf(),
            match old(self)@.mem.next_id() {
                Some(id) => done is Ok && final(self)@ == old(self)@.with_mem(
                    old(self)@.mem.allocate(old(self)@.reg(inst.c) as nat),
                ).write(inst.b, id),
                None => done == Err::<(), MachError>(MachError::SegmentSpaceExhausted)
                    && final(self)@ == old(self)@,
            },
    {
        let instc = self.read(inst.c);

        match self.allocate(instc) {
            Ok(allo_id) => {
                self.write(allo_id, inst.b);
                Ok(())
            },
            Err(e) => Err(e),
        }
    }

    ///  The segment $m[$r[C]] is unmapped
    /// Future Map Segment instructions may reuse the identifier $r[C].
    fn unmap(&mut self, inst: Dinst) -> (done: Result<(), MachError>)
        requires
            old(self).wf(),
            names_register(inst.c),
        ensures
            final(self).wf(),
            old(self)@.mem.can_deallocate(old(self)@.reg(inst.c)) ==> done is Ok && final(self)@
                == old(self)@.with_mem(old(self)@.mem.deallocate(old(self)@.reg(inst.c))),
            !old(self)@.mem.can_deallocate(old(self)@.reg(inst.c)) ==> done == Err::<(), MachError>(
                MachError::NotFoundUnmapSegment,
            ) && final(self)@ == old(self)@,
    {
        let instc = self.read(inst.c);
        self.deallocate(instc)
    }

    /// The value in $r[C] is displayed on the I/O
    ///  Only values from 0 to 255 are allowed.
    fn output(&self, inst: Dinst) -> (byte: Result<u8, MachError>)
        requires
            self.wf(),
            names_register(inst.c),
        ensures
            self@.reg(inst.c) <= 255 ==> byte == Ok::<u8, MachError>(self@.reg(inst.c) as u8),
            self@.reg(inst.c) > 255 ==> byte == Err::<u8, MachError>(MachError::UnvalidOutput),
    {
        let instc = self.read(inst.c);
        if instc <= 255 {
            Ok(instc as u8)
        } else {
            Err(MachError::UnvalidOutput)
        }
    }

    ///  UM waits for input on the I/O device
    /// $r[c] is loaded with the input
    /// must be a value from 0 to 255
    /// end of input has been signaled, $r[C] is loaded with a full 32-bit word in which every bit is 1
    ///
    /// `inst` is the instruction that `Action::Input` handed out, `byte` the
    /// byte that was read, a newline like any other, or `None` at the end of
    /// the stream. A halted or faulted machine takes no input.
    pub fn input(&mut self, inst: Dinst, byte: Option<u8>)
        requires
            old(self).wf(),
            names_register(inst.c),
        ensures
            final(self).wf(),
            final(self)@ == old(self)@.input(inst, byte),
    {
        if self.status == Status::Running {
            match byte {
                Some(o) => self.write(o as u32, inst.c),
                None => self.write(u32::MAX, inst.c),
            }
        }
    }

    /// Tells the machine that the input or the output stream has failed. A
    /// running machine faults with `IoFailure`, which is returned; a halted
    /// or faulted machine stays as it is.
    pub fn io_failure(&mut self) -> (error: MachError)
        ensures
            final(self)@ == old(self)@.io_failure(),
            final(self).wf() == old(self).wf(),
            error == MachError::IoFailure,
    {
        if self.status == Status::Running {
            self.status = Status::Faulted(MachError::IoFailure);
        }
        MachError::IoFailure
    }

    ///  Segment $m[$r[B]] is duplicated
    /// m[0] = duplicate
    /// program counter points to r[c]
    fn pload(&mut self, inst: Dinst) -> (done: Result<(), MachError>)
        requires
            old(self).wf(),
            names_register(inst.b),
            names_register(inst.c),
        ensures
            final(self).wf(),
            old(self)@.reg(inst.b) == 0 ==> done is Ok && final(self)@ == old(self)@.with_pc(
                old(self)@.reg(inst.c) as nat,
            ),
            old(self)@.reg(inst.b) != 0 && old(self)@.mem.mapped(old(self)@.reg(inst.b)) ==> done is Ok
                && final(self)@ == old(self)@.with_mem(
                old(self)@.mem.clone_into_zero(old(self)@.reg(inst.b)),
            ).with_pc(old(self)@.reg(inst.c) as nat),
            !old(self)@.mem.mapped(old(self)@.reg(inst.b)) ==> done == Err::<(), MachError>(
                MachError::NotFoundLoadProgramSegment,
            ) && final(self)@ == old(self)@,
    {
        let instb = self.read(inst.b);
        let instc = self.read(inst.c);

        if instb != 0 {
            match self.memory.clone_into_zero(instb) {
                Ok(_) => {},
                Err(e) => {
                    return Err(e);
                },
            }
        }
        self.prog_counter = instc as usize;
        Ok(())
    }

    /// r[a] = Value
    fn vload(&mut self, inst: Dinst)
        requires
            old(self).wf(),
            names_register(inst.a),
            inst.val is Some,
        ensures
            final(self).wf(),
            final(self)@ == old(self)@.write(inst.a, inst.val.unwrap()),
    {
        self.write(inst.val.unwrap(), inst.a)
    }

    /// Executes the body of `inst` by the function of its opcode.
    fn execute(&mut self, inst: Dinst) -> (result: Result<Action, MachError>)
        requires
            old(self).wf(),
            inst.wf(),
        ensures
            final(self).wf(),
            final(self)@ == old(self)@.execute(inst).0,
            result == old(self)@.execute(inst).1,
    {
        match inst.op {
            0 => {
                self.cdmov(inst);
                Ok(Action::Continue)
            },
            1 => match self.sload(inst) {
                Ok(_) => Ok(Action::Continue),
                Err(e) => Err(e),
            },
            2 => match self.store(inst) {
                Ok(_) => Ok(Action::Continue),
                Err(e) => Err(e),
            },
            3 => {
                self.add(inst);
                Ok(Action::Continue)
            },
            4 => {
                self.mult(inst);
                Ok(Action::Continue)
            },
            5 => match self.div(inst) {
                Ok(_) => Ok(Action::Continue),
                Err(e) => Err(e),
            },
            6 => {
                self.nand(inst);
                Ok(Action::Continue)
            },
            7 => Ok(self.halt()),
            8 => match self.map(inst) {
                Ok(_) => Ok(Action::Continue),
                Err(e) => Err(e),
            },
            9 => match self.unmap(inst) {
                Ok(_) => Ok(Action::Continue),
                Err(e) => Err(e),
            },
            10 => match self.output(inst) {
                Ok(byte) => Ok(Action::Output(byte)),
                Err(e) => Err(e),
            },
            11 => Ok(Action::Input(inst)),
            12 => match self.pload(inst) {
                Ok(_) => Ok(Action::Continue),
                Err(e) => Err(e),
            },
            _ => {
                self.vload(inst);
                Ok(Action::Continue)
            },
        }
    }

    /// One step of the engine: on a running machine one cycle of fetch,
    /// decode, advance and execute. What the cycle leaves to the embedder is
    /// returned; a halt or a fault is returned and ends the run, and later
    /// calls change nothing and return it again.
    pub fn disassemble(&mut self) -> (result: Result<Action, MachError>)
        requires
            old(self).wf(),
        ensures
            final(self).wf(),
            final(self)@ == old(self)@.step().0,
            result == old(self)@.step().1,
    {
        match self.status {
            Status::Halted => {
                return Ok(Action::Halt);
            },
            Status::Faulted(e) => {
                return Err(e);
            },
            Status::Running => {},
        }
        let inst = match self.get_i(self.prog_counter) {
            Ok(word) => Dinst::decode(word),
            Err(e) => {
                self.status = Status::Faulted(e);
                return Err(e);
            },
        };
        let result = match inst {
            Some(inst) => {
                self.prog_counter = self.prog_counter + 1;
                self.execute(inst)
            },
            None => Err(MachError::UnvalidInstruction),
        };
        match result {
            Ok(Action::Halt) => {
                self.status = Status::Halted;
            },
            Ok(_) => {},
            Err(e) => {
                self.status = Status::Faulted(e);
            },
        }
        result
    }
}

/// The body of an instruction keeps the invariants of the machine and leaves
/// segment 0 mapped, whether it faults or not.
pub proof fn lemma_execute_keeps_wf(s: UMState, inst: Dinst)
    requires
        s.wf(),
        inst.wf(),
    ensures
        s.execute(inst).0.wf(),
        s.execute(inst).0.mem.mapped(0),
        s.execute(inst).0.status == s.status,
        s.execute(inst).1 is Err ==> s.execute(inst).0 == s,
{
    let rb = s.reg(inst.b);
    let rc = s.reg(inst.c);
    if inst.op == 2 {
        lemma_store_keeps_wf(s.mem, s.reg(inst.a), rb, rc);
    } else if inst.op == 8 {
        lemma_allocate_keeps_wf(s.mem, rc as nat);
    } else if inst.op == 9 {
        if s.mem.can_deallocate(rc) {
            lemma_deallocate_keeps_wf(s.mem, rc);
        }
    } else if inst.op == 12 {
        if rb != 0 && s.mem.mapped(rb) {
            lemma_clone_into_zero_keeps_wf(s.mem, rb);
        }
    }
}

/// Every step of the engine keeps the invariants of the machine, whether it
/// faults or not: in particular segment 0 is mapped before and after it.
pub proof fn lemma_step_keeps_wf(s: UMState)
    requires
        s.wf(),
    ensures
        s.mem.mapped(0),
        s.step().0.wf(),
        s.step().0.mem.mapped(0),
{
    if s.status == Status::Running {
        match s.mem.fetch(s.pc) {
            Ok(word) => {
                match decoded(word) {
                    Some(inst) => {
                        lemma_execute_keeps_wf(s.with_pc(s.pc + 1), inst);
                    },
                    None => {},
                }
            },
            Err(_) => {},
        }
    }
}

/// An input and the failure of a stream keep the invariants of the machine
/// and touch no segment.
pub proof fn lemma_input_keeps_wf(s: UMState, inst: Dinst, byte: Option<u8>)
    requires
        s.wf(),
        names_register(inst.c),
    ensures
        s.input(inst, byte).wf(),
        s.input(inst, byte).mem == s.mem,
        s.io_failure().wf(),
        s.io_failure().mem == s.mem,
{
}

/// A halted machine and a faulted machine never change again: neither a
/// step nor an input nor the failure of a stream moves them, and a step
/// reports the halt or the same fault again.
pub proof fn lemma_terminal_states_are_final(s: UMState, inst: Dinst, byte: Option<u8>)
    requires
        s.status != Status::Running,
    ensures
        s.step().0 == s,
        s.input(inst, byte) == s,
        s.io_failure() == s,
        s.status == Status::Halted ==> s.step().1 == Ok::<Action, MachError>(Action::Halt),
        s.status matches Status::Faulted(e) ==> s.step().1 == Err::<Action, MachError>(e),
{
}

/// A running machine leaves the running state exactly on a halt instruction
/// and on a fault, and then holds what the step returned.
pub proof fn lemma_step_status(s: UMState)
    requires
        s.status == Status::Running,
    ensures
        s.step().0.status == Status::Running <==> (s.step().1 matches Ok(action) && action
            != Action::Halt),
        s.step().0.status == Status::Halted <==> s.step().1 == Ok::<Action, MachError>(Action::Halt),
        s.step().1 matches Err(e) ==> s.step().0.status == Status::Faulted(e),
{
}

/// Addition and multiplication wrap around at 2^32: the sum and the product
/// of the mathematical integers, modulo 2^32, are what register A holds
/// after the instruction.
pub proof fn lemma_add_and_mult_wrap(s: UMState, inst: Dinst)
    requires
        s.wf(),
        inst.wf(),
        inst.op == 3 || inst.op == 4,
    ensures
        s.execute(inst).1 == Ok::<Action, MachError>(Action::Continue),
        inst.op == 3 ==> s.execute(inst).0.reg(inst.a) == (s.reg(inst.b) + s.reg(inst.c))
            % 0x1_0000_0000,
        inst.op == 4 ==> s.execute(inst).0.reg(inst.a) == (s.reg(inst.b) * s.reg(inst.c))
            % 0x1_0000_0000,
{
}

/// After a nand register A holds the complement of the bitwise and of the
/// registers B and C; where B and C are one register, that is the complement
/// of its word.
pub proof fn lemma_nand(s: UMState, inst: Dinst)
    requires
        s.wf(),
        inst.wf(),
        inst.op == 6,
    ensures
        s.execute(inst).1 == Ok::<Action, MachError>(Action::Continue),
        s.execute(inst).0.reg(inst.a) == !(s.reg(inst.b) & s.reg(inst.c)),
        inst.b == inst.c ==> s.execute(inst).0.reg(inst.a) == !s.reg(inst.b),
{
    let x = s.reg(inst.b);
    assert(x & x == x) by (bit_vector);
}

/// After a program load from a mapped segment j, segment 0 equals segment j
/// word for word, segment j is as it was, and the program counter is the
/// word of register C. With j = 0 only the program counter changes.
pub proof fn lemma_program_load(s: UMState, inst: Dinst)
    requires
        s.wf(),
        inst.wf(),
        inst.op == 12,
        s.mem.mapped(s.reg(inst.b)),
    ensures
        s.execute(inst).1 == Ok::<Action, MachError>(Action::Continue),
        s.execute(inst).0.pc == s.reg(inst.c),
        s.execute(inst).0.mem.segment(0) == s.mem.segment(s.reg(inst.b)),
        s.execute(inst).0.mem.segment(s.reg(inst.b)) == s.mem.segment(s.reg(inst.b)),
        s.execute(inst).0.regs == s.regs,
        s.reg(inst.b) == 0 ==> s.execute(inst).0 == s.with_pc(s.reg(inst.c) as nat),
{
}

/// After a map that finds an identifier, register B holds it: it is not 0,
/// was not mapped before, and now names a segment of as many zero words as
/// register C held.
pub proof fn lemma_map(s: UMState, inst: Dinst)
    requires
        s.wf(),
        inst.wf(),
        inst.op == 8,
        s.mem.next_id() is Some,
    ensures
        s.execute(inst).1 == Ok::<Action, MachError>(Action::Continue),
        s.execute(inst).0.reg(inst.b) == s.mem.next_id().unwrap(),
        s.execute(inst).0.reg(inst.b) != 0,
        !s.mem.mapped(s.execute(inst).0.reg(inst.b)),
        s.execute(inst).0.mem.mapped(s.execute(inst).0.reg(inst.b)),
        s.execute(inst).0.mem.segment(s.execute(inst).0.reg(inst.b)) == Seq::new(
            s.reg(inst.c) as nat,
            |i: int| 0u32,
        ),
{
}

/// After an unmap of a mapped segment other than 0 its identifier is
/// unmapped and waits on the free list; an unmap of segment 0 or of an
/// unmapped segment faults.
pub proof fn lemma_unmap(s: UMState, inst: Dinst)
    requires
        s.wf(),
        inst.wf(),
        inst.op == 9,
    ensures
        s.mem.can_deallocate(s.reg(inst.c)) ==> {
            &&& s.execute(inst).1 == Ok::<Action, MachError>(Action::Continue)
            &&& !s.execute(inst).0.mem.mapped(s.reg(inst.c))
            &&& s.execute(inst).0.mem.released(s.reg(inst.c))
        },
        !s.mem.can_deallocate(s.reg(inst.c)) ==> s.execute(inst).1 == Err::<Action, MachError>(
            MachError::NotFoundUnmapSegment,
        ),
{
    if s.mem.can_deallocate(s.reg(inst.c)) {
        lemma_deallocate_keeps_wf(s.mem, s.reg(inst.c));
    }
}

/// A load-immediate instruction made of a register and a value below 2^25
/// puts exactly that value into that register.
pub proof fn lemma_load_immediate_round_trip(s: UMState, a: u32, val: u32)
    requires
        s.wf(),
        a < 8,
        val < 0x200_0000,
    ensures
        decoded(load_immediate_word(a, val)) matches Some(inst) && {
            &&& s.execute(inst).1 == Ok::<Action, MachError>(Action::Continue)
            &&& s.execute(inst).0.reg(Some(a)) == val
            &&& s.execute(inst).0 == s.write(Some(a), val)
        },
{
}

/// A fresh machine meets the invariants of the machine, whatever its program.
pub proof fn lemma_initial_is_wf(program: Seq<u32>)
    ensures
        UMState::initial(program).wf(),
        UMState::initial(program).mem.segment(0) == program,
{
}

/// The invariants of the machine hold at every point of every run: after
/// every trace of steps, inputs and stream failures. In particular segment 0
/// is always mapped.
pub proof fn lemma_every_trace_keeps_wf(s: UMState, trace: Seq<Event>)
    requires
        s.wf(),
    ensures
        s.after_all(trace).wf(),
        s.after_all(trace).mem.mapped(0),
    decreases trace.len(),
{
    if trace.len() > 0 {
        lemma_every_trace_keeps_wf(s, trace.drop_last());
        let before = s.after_all(trace.drop_last());
        lemma_step_keeps_wf(before);
    }
}

/// Nothing leads out of a terminal state: after any trace a halted machine
/// is the halted machine that it was, and a faulted machine the faulted
/// machine that it was.
pub proof fn lemma_no_trace_leaves_a_terminal_state(s: UMState, trace: Seq<Event>)
    requires
        s.status != Status::Running,
    ensures
        s.after_all(trace) == s,
    decreases trace.len(),
{
    if trace.len() > 0 {
        lemma_no_trace_leaves_a_terminal_state(s, trace.drop_last());
    }
}

} // verus!
