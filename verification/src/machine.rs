//! The machine state: memory image, register bank, execution and stack
//! pointers, status flags and the output buffer, together with the loader
//! and the register accessors.

use vstd::prelude::*;

verus! {

/// Number of addressable memory bytes. The stack lives at the high end of
/// this region and grows toward lower addresses.
pub const MEMORY_SIZE: usize = 4096;

/// Number of registers in the bank; operand bytes of 128 and above select
/// register `byte - 128`, so exactly the indices 0 to 127 are reachable.
pub const REGISTER_COUNT: usize = 128;

/// Initial top-of-stack address: the last byte of memory.
pub const INITIAL_STACK_POINTER: u32 = 4095;

/// Bit 30 of the flags word: the halt flag. Once set, execution stops.
pub const HALT_FLAG: u32 = 0x4000_0000;

/// Upper bound on the execution pointer used by the run loop as a guard
/// against runaway execution, in the absence of a program-length field.
pub const DEFAULT_PROGRAM_REGION_END: u32 = 100;

/// The mathematical model of the machine: the whole mutable state as plain
/// sequences and integers.
#[verifier::ext_equal]
pub struct MachineView {
    pub memory: Seq<u8>,
    pub registers: Seq<i32>,
    pub execution_pointer: u32,
    pub stack_pointer: u32,
    pub flags: u32,
    pub standard_output: Seq<u8>,
}

/// The sole mutable entity of the emulator.
pub struct Machine {
    /// The loaded program, program data, and the stack region.
    pub memory: Vec<u8>,
    /// The bank of 32-bit signed registers.
    pub registers: Vec<i32>,
    /// Offset into `memory` of the next instruction to fetch.
    pub execution_pointer: u32,
    /// Offset into `memory` of the next free byte of the stack.
    pub stack_pointer: u32,
    /// Status bitfield; see `HALT_FLAG`.
    pub flags: u32,
    /// The machine's sole observable output channel, one byte per `sow`.
    pub standard_output: Vec<u8>,
}

impl View for Machine {
    type V = MachineView;

    open spec fn view(&self) -> MachineView {
        MachineView {
            memory: self.memory@,
            registers: self.registers@,
            execution_pointer: self.execution_pointer,
            stack_pointer: self.stack_pointer,
            flags: self.flags,
            standard_output: self.standard_output@,
        }
    }
}

/// Well-formedness of a machine state: the memory image and the register
/// bank have their fixed capacities.
pub open spec fn wf_view(m: MachineView) -> bool {
    &&& m.memory.len() == MEMORY_SIZE
    &&& m.registers.len() == REGISTER_COUNT
}

/// The halt flag is set: the machine is in its terminal state.
pub open spec fn spec_halted(m: MachineView) -> bool {
    m.flags & HALT_FLAG >= 1
}

impl Machine {
    pub open spec fn wf(&self) -> bool {
        wf_view(self@)
    }

    /// A fresh machine: zeroed memory and registers, execution pointer at 0,
    /// stack pointer at the top of memory, no flags, empty output.
    pub fn new() -> (m: Machine)
        ensures
            m.wf(),
            m@.memory =~= Seq::new(MEMORY_SIZE as nat, |i: int| 0u8),
            m@.registers =~= Seq::new(REGISTER_COUNT as nat, |i: int| 0i32),
            m@.execution_pointer == 0,
            m@.stack_pointer == INITIAL_STACK_POINTER,
            m@.flags == 0,
            m@.standard_output =~= Seq::<u8>::empty(),
    {
        let m = Machine {
            memory: vec![0u8; MEMORY_SIZE],
            registers: vec![0i32; REGISTER_COUNT],
            execution_pointer: 0,
            stack_pointer: INITIAL_STACK_POINTER,
            flags: 0,
            standard_output: Vec::new(),
        };
        proof {
            assert(m@.memory =~= Seq::new(MEMORY_SIZE as nat, |i: int| 0u8));
            assert(m@.registers =~= Seq::new(REGISTER_COUNT as nat, |i: int| 0i32));
        }
        m
    }

    /// Copies a byte image verbatim into memory starting at `offset`; the
    /// loader writes the program here before the first step.
    pub fn set_ram(&mut self, offset: usize, data: Vec<u8>)
        requires
            old(self).wf(),
            offset + data@.len() <= old(self)@.memory.len(),
        ensures
            final(self).wf(),
            final(self)@.memory.len() == old(self)@.memory.len(),
            forall|i: int|
                0 <= i < final(self)@.memory.len() ==> final(self)@.memory[i] == (if offset <= i
                    < offset + data@.len() {
                    data@[i - offset]
                } else {
                    old(self)@.memory[i]
                }),
            final(self)@.registers == old(self)@.registers,
            final(self)@.execution_pointer == old(self)@.execution_pointer,
            final(self)@.stack_pointer == old(self)@.stack_pointer,
            final(self)@.flags == old(self)@.flags,
            final(self)@.standard_output == old(self)@.standard_output,
    {
        let ghost pre = *old(self);
        let mut i: usize = 0;
        while i < data.len()
            invariant
                *old(self) == pre,
                pre.wf(),
                i <= data@.len(),
                offset + data@.len() <= pre@.memory.len(),
                self@.memory.len() == pre@.memory.len(),
                forall|j: int|
                    0 <= j < self@.memory.len() ==> self@.memory[j] == (if offset <= j < offset
                        + i {
                        data@[j - offset]
                    } else {
                        pre@.memory[j]
                    }),
                self@.registers == pre@.registers,
                self@.execution_pointer == pre@.execution_pointer,
                self@.stack_pointer == pre@.stack_pointer,
                self@.flags == pre@.flags,
                self@.standard_output == pre@.standard_output,
            decreases data@.len() - i,
        {
            self.memory[offset + i] = data[i];
            i = i + 1;
        }
    }

    /// Reads the register selected by a register number (an operand byte
    /// with its high bit already removed).
    pub fn data_of_register_by_value(&self, register: u8) -> (r: i32)
        requires
            self.wf(),
            register < 128,
        ensures
            r == self@.registers[register as int],
    {
        self.registers[register as usize]
    }

    /// Writes the register selected by a register number.
    pub fn set_data_of_register(&mut self, register: u8, data: i32)
        requires
            old(self).wf(),
            register < 128,
        ensures
            final(self).wf(),
            final(self)@.registers == old(self)@.registers.update(register as int, data),
            final(self)@.memory == old(self)@.memory,
            final(self)@.execution_pointer == old(self)@.execution_pointer,
            final(self)@.stack_pointer == old(self)@.stack_pointer,
            final(self)@.flags == old(self)@.flags,
            final(self)@.standard_output == old(self)@.standard_output,
    {
        self.registers[register as usize] = data;
    }
}

} // verus!
