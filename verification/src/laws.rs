//! The laws of the instruction set, stated over the step function and
//! proved once for all machine states.

use vstd::prelude::*;

use crate::instruction::ADD_INSTRUCTION;
use crate::instruction::SUB_INSTRUCTION;
use crate::instruction::MUL_INSTRUCTION;
use crate::instruction::DIV_INSTRUCTION;
use crate::instruction::MOD_INSTRUCTION;
use crate::instruction::HALT_INSTRUCTION;
use crate::instruction::MOVE_INSTRUCTION;
use crate::instruction::JUMP_INSTRUCTION;
use crate::instruction::JUMP_ZERO_INSTRUCTION;
use crate::instruction::LOAD_BYTE_INSTRUCTION;
use crate::instruction::PUSH_BYTE_INSTRUCTION;
use crate::instruction::POP_BYTE_INSTRUCTION;
use crate::instruction::STORE_BYTE_INSTRUCTION;
use crate::instruction::STANDARD_OUTPUT_WRITE_INSTRUCTION;
use crate::instruction::STANDARD_OUTPUT_CLEAR_INSTRUCTION;
use crate::machine::MachineView;
use crate::machine::wf_view;
use crate::machine::spec_halted;
use crate::machine::HALT_FLAG;
use crate::execution::StepOutcome;
use crate::execution::step_spec;
use crate::execution::step_advances;
use crate::execution::runs_n;
use crate::execution::reaches;
use crate::execution::spec_resolve;
use crate::execution::spec_low_byte;
use crate::execution::floor_div;
use crate::execution::floor_mod;
use crate::execution::trunc_div;
use crate::execution::trunc_rem;

verus! {

/// A running machine is about to fetch the instruction `(op, b1, b2)`.
pub open spec fn fetches(m: MachineView, op: u8, b1: u8, b2: u8) -> bool {
    &&& wf_view(m)
    &&& !spec_halted(m)
    &&& m.execution_pointer + 2 < m.memory.len()
    &&& m.memory[m.execution_pointer as int] == op
    &&& m.memory[m.execution_pointer as int + 1] == b1
    &&& m.memory[m.execution_pointer as int + 2] == b2
}

pub open spec fn is_arithmetic_opcode(op: u8) -> bool {
    ||| op == ADD_INSTRUCTION
    ||| op == SUB_INSTRUCTION
    ||| op == MUL_INSTRUCTION
    ||| op == DIV_INSTRUCTION
    ||| op == MOD_INSTRUCTION
}

/// The documented mathematical meaning of each arithmetic opcode.
pub open spec fn arithmetic_math(op: u8, a: int, b: int) -> int {
    if op == ADD_INSTRUCTION {
        a + b
    } else if op == SUB_INSTRUCTION {
        a - b
    } else if op == MUL_INSTRUCTION {
        a * b
    } else if op == DIV_INSTRUCTION {
        floor_div(a, b)
    } else {
        floor_mod(a, b)
    }
}

/// The divisor is nonzero where one is consumed, and the mathematical
/// result fits a 32-bit register.
pub open spec fn arithmetic_in_range(op: u8, a: int, b: int) -> bool {
    &&& (op == DIV_INSTRUCTION || op == MOD_INSTRUCTION) ==> b != 0
    &&& i32::MIN <= arithmetic_math(op, a, b) <= i32::MAX
}

/// Every arithmetic opcode writes exactly the documented operation on the
/// two resolved operands into the destination register and advances the
/// execution pointer by exactly 3; nothing else changes.
pub proof fn lemma_arithmetic_step(m: MachineView, op: u8, b1: u8, b2: u8)
    requires
        fetches(m, op, b1, b2),
        is_arithmetic_opcode(op),
        b1 >= 128,
        arithmetic_in_range(op, spec_resolve(m, b1) as int, spec_resolve(m, b2) as int),
    ensures
        step_spec(m) matches StepOutcome::Advanced { post, ticks } && {
            let a = spec_resolve(m, b1) as int;
            let b = spec_resolve(m, b2) as int;
            &&& post.registers[b1 - 128] == arithmetic_math(op, a, b)
            &&& post.registers =~= m.registers.update(b1 - 128, arithmetic_math(op, a, b) as i32)
            &&& post.execution_pointer == m.execution_pointer + 3
            &&& post.memory == m.memory
            &&& post.stack_pointer == m.stack_pointer
            &&& post.flags == m.flags
            &&& post.standard_output == m.standard_output
        },
{
    let a = spec_resolve(m, b1) as int;
    let b = spec_resolve(m, b2) as int;
    if (op == DIV_INSTRUCTION || op == MOD_INSTRUCTION) && a == i32::MIN && b == -1 {
        assert(trunc_rem(a, b) == 0);
        assert(trunc_div(a, b) == 0x8000_0000);
    }
    if op == MUL_INSTRUCTION {
        assert(vstd::wrapping::i32_specs::signed_crop(a * b) == a * b) by {
            if a * b >= 0 {
                assert((a * b) % 0x1_0000_0000 == a * b);
            } else {
                assert((a * b) % 0x1_0000_0000 == a * b + 0x1_0000_0000);
            }
        };
    }
}

/// `mov` sets the destination register to the resolved source value,
/// leaves a source register unchanged when it is a different one, and
/// advances the execution pointer by exactly 3.
pub proof fn lemma_move_step(m: MachineView, b1: u8, b2: u8)
    requires
        fetches(m, MOVE_INSTRUCTION, b1, b2),
        b1 >= 128,
    ensures
        step_spec(m) matches StepOutcome::Advanced { post, ticks } && {
            &&& post.registers[b1 - 128] == spec_resolve(m, b2)
            &&& b2 >= 128 && b2 != b1 ==> post.registers[b2 - 128] == m.registers[b2 - 128]
            &&& post.execution_pointer == m.execution_pointer + 3
            &&& post.memory == m.memory
            &&& post.stack_pointer == m.stack_pointer
            &&& post.flags == m.flags
            &&& post.standard_output == m.standard_output
        },
{
}

/// `jmp` sets the execution pointer to exactly the resolved target; no
/// register, memory byte, flag or output changes.
pub proof fn lemma_jump_step(m: MachineView, b1: u8, b2: u8)
    requires
        fetches(m, JUMP_INSTRUCTION, b1, b2),
        spec_resolve(m, b1) >= 0,
    ensures
        step_spec(m) matches StepOutcome::Advanced { post, ticks } && {
            &&& post.execution_pointer == spec_resolve(m, b1)
            &&& post.registers == m.registers
            &&& post.memory == m.memory
            &&& post.stack_pointer == m.stack_pointer
            &&& post.flags == m.flags
            &&& post.standard_output == m.standard_output
        },
{
}

/// `jmpz` with a zero tested value lands exactly on the target; with a
/// nonzero one it falls through to the instruction 3 bytes further on.
pub proof fn lemma_jump_zero_step(m: MachineView, b1: u8, b2: u8)
    requires
        fetches(m, JUMP_ZERO_INSTRUCTION, b1, b2),
        spec_resolve(m, b1) == 0 ==> spec_resolve(m, b2) >= 0,
    ensures
        step_spec(m) matches StepOutcome::Advanced { post, ticks } && {
            &&& spec_resolve(m, b1) == 0 ==> post.execution_pointer == spec_resolve(m, b2)
            &&& spec_resolve(m, b1) != 0 ==> post.execution_pointer == m.execution_pointer + 3
            &&& post.registers == m.registers
            &&& post.memory == m.memory
            &&& post.stack_pointer == m.stack_pointer
            &&& post.flags == m.flags
            &&& post.standard_output == m.standard_output
        },
{
}

/// `halt` sets the halt flag and touches nothing but the flags word and
/// the execution pointer.
pub proof fn lemma_halt_step(m: MachineView, b1: u8, b2: u8)
    requires
        fetches(m, HALT_INSTRUCTION, b1, b2),
    ensures
        step_spec(m) matches StepOutcome::Advanced { post, ticks } && {
            &&& spec_halted(post)
            &&& post.flags == m.flags | HALT_FLAG
            &&& post.registers == m.registers
            &&& post.memory == m.memory
            &&& post.stack_pointer == m.stack_pointer
            &&& post.standard_output == m.standard_output
        },
{
    let f = m.flags;
    assert((f | 0x4000_0000u32) & 0x4000_0000u32 >= 1) by (bit_vector);
    assert(f | 0x4000_0000u32 == f | HALT_FLAG);
}

proof fn lemma_halted_runs_n(m: MachineView, p: MachineView, n: nat)
    requires
        spec_halted(m),
        runs_n(m, p, n),
    ensures
        p == m,
    decreases n,
{
    if n > 0 {
        let mid = choose|mid: MachineView|
            runs_n(m, mid, (n - 1) as nat) && step_advances(mid, p);
        lemma_halted_runs_n(m, mid, (n - 1) as nat);
    }
}

/// The halted state is terminal: once the halt flag is set, no sequence of
/// steps leads anywhere else, so the run loop makes no further move.
pub proof fn lemma_halted_is_terminal(m: MachineView, p: MachineView)
    requires
        spec_halted(m),
        reaches(m, p),
    ensures
        p == m,
{
    let n = choose|n: nat| runs_n(m, p, n);
    lemma_halted_runs_n(m, p, n);
}

/// Pushing a value and popping it right back: the pop writes exactly the
/// pushed byte into its destination register, and the stack pointer
/// returns to its pre-push value (the push decrements it, the pop moves it
/// back up).
pub proof fn lemma_push_pop_round_trip(m: MachineView, b1: u8, r1: u8)
    requires
        fetches(m, PUSH_BYTE_INSTRUCTION, b1, POP_BYTE_INSTRUCTION),
        m.execution_pointer + 4 < m.memory.len(),
        m.memory[m.execution_pointer as int + 3] == r1,
        r1 >= 128,
        1 <= m.stack_pointer < m.memory.len(),
        m.stack_pointer != m.execution_pointer + 2,
        m.stack_pointer != m.execution_pointer + 3,
        m.stack_pointer != m.execution_pointer + 4,
    ensures
        step_spec(m) matches StepOutcome::Advanced { post: after_push, ticks } && (step_spec(
            after_push,
        ) matches StepOutcome::Advanced { post: after_pop, ticks: t2 } && {
            &&& after_pop.registers[r1 - 128] == spec_low_byte(spec_resolve(m, b1)) as i32
            &&& 0 <= spec_resolve(m, b1) <= 255 ==> after_pop.registers[r1 - 128]
                == spec_resolve(m, b1)
            &&& after_pop.stack_pointer == m.stack_pointer
        }),
{
    let v = spec_resolve(m, b1);
    assert(0 <= v <= 255 ==> spec_low_byte(v) == v);
}

/// `sow` appends exactly one byte, the low byte of the resolved operand,
/// to the output buffer, and changes nothing else but the execution
/// pointer; appended bytes therefore stay in call order.
pub proof fn lemma_sow_step(m: MachineView, b1: u8, b2: u8)
    requires
        fetches(m, STANDARD_OUTPUT_WRITE_INSTRUCTION, b1, b2),
    ensures
        step_spec(m) matches StepOutcome::Advanced { post, ticks } && {
            &&& post.standard_output =~= m.standard_output.push(
                spec_low_byte(spec_resolve(m, b1)),
            )
            &&& post.standard_output.len() == m.standard_output.len() + 1
            &&& post.execution_pointer == m.execution_pointer + 2
            &&& post.registers == m.registers
            &&& post.memory == m.memory
            &&& post.stack_pointer == m.stack_pointer
            &&& post.flags == m.flags
        },
{
}

/// `soc` resets the output buffer to empty and changes nothing else but
/// the execution pointer.
pub proof fn lemma_soc_step(m: MachineView, b1: u8, b2: u8)
    requires
        fetches(m, STANDARD_OUTPUT_CLEAR_INSTRUCTION, b1, b2),
    ensures
        step_spec(m) matches StepOutcome::Advanced { post, ticks } && {
            &&& post.standard_output =~= Seq::<u8>::empty()
            &&& post.execution_pointer == m.execution_pointer + 1
            &&& post.registers == m.registers
            &&& post.memory == m.memory
            &&& post.stack_pointer == m.stack_pointer
            &&& post.flags == m.flags
        },
{
}

/// Storing a byte at an address and loading from that address right after
/// yields exactly the stored byte in the destination register.
pub proof fn lemma_store_load_round_trip(m: MachineView, b1: u8, b2: u8, r1: u8, a2: u8)
    requires
        fetches(m, STORE_BYTE_INSTRUCTION, b1, b2),
        m.execution_pointer + 5 < m.memory.len(),
        m.memory[m.execution_pointer as int + 3] == LOAD_BYTE_INSTRUCTION,
        m.memory[m.execution_pointer as int + 4] == r1,
        m.memory[m.execution_pointer as int + 5] == b2,
        r1 >= 128,
        0 <= spec_resolve(m, b2) < m.memory.len(),
        spec_resolve(m, b2) != m.execution_pointer + 3,
        spec_resolve(m, b2) != m.execution_pointer + 4,
        spec_resolve(m, b2) != m.execution_pointer + 5,
    ensures
        step_spec(m) matches StepOutcome::Advanced { post: after_store, ticks } && (step_spec(
            after_store,
        ) matches StepOutcome::Advanced { post: after_load, ticks: t2 } && {
            &&& after_load.registers[r1 - 128] == spec_low_byte(spec_resolve(m, b1)) as i32
            &&& 0 <= spec_resolve(m, b1) <= 255 ==> after_load.registers[r1 - 128]
                == spec_resolve(m, b1)
            &&& after_load.memory =~= m.memory.update(
                spec_resolve(m, b2) as int,
                spec_low_byte(spec_resolve(m, b1)),
            )
        }),
{
    let v = spec_resolve(m, b1);
    assert(0 <= v <= 255 ==> spec_low_byte(v) == v);
}

} // verus!
