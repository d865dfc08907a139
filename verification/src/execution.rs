//! The fetch-decode-execute cycle.
//!
//! `step_spec` is the mathematical model of one machine step; `execute_line`
//! is the executable step and is proved to follow that model exactly, and
//! `run` drives the machine to completion under a step budget.
//!
//! Resolved values are truncated to their low byte wherever a byte is
//! stored (`pushb`, `stb`, `sow`), and pointer arithmetic wraps around the
//! 32-bit range, so every step is total except for the reported faults.

use vstd::prelude::*;
use vstd::wrapping::i32_specs;
use vstd::wrapping::u32_specs;

use crate::instruction::Instruction;
use crate::instruction::spec_is_defined_opcode;
use crate::instruction::spec_disassembly;
use crate::instruction::ADD_INSTRUCTION;
use crate::instruction::SUB_INSTRUCTION;
use crate::instruction::MUL_INSTRUCTION;
use crate::instruction::DIV_INSTRUCTION;
use crate::instruction::MOD_INSTRUCTION;
use crate::instruction::HALT_INSTRUCTION;
use crate::instruction::MOVE_INSTRUCTION;
use crate::instruction::JUMP_INSTRUCTION;
use crate::instruction::JUMP_ZERO_INSTRUCTION;
use crate::instruction::LOAD_BYTE_INSTRUCTION;
use crate::instruction::PUSH_BYTE_INSTRUCTION;
use crate::instruction::POP_BYTE_INSTRUCTION;
use crate::instruction::STORE_BYTE_INSTRUCTION;
use crate::instruction::STANDARD_OUTPUT_WRITE_INSTRUCTION;
use crate::instruction::STANDARD_OUTPUT_CLEAR_INSTRUCTION;
use crate::machine::Machine;
use crate::machine::MachineView;
use crate::machine::spec_halted;
use crate::machine::HALT_FLAG;

verus! {

/// A fatal execution fault, reported with the offending address and the
/// location of the instruction that raised it.
#[derive(Clone, Copy, PartialEq, Eq, Structural, Debug)]
pub enum Fault {
    /// Integer division or modulo with a zero divisor.
    DivisionByZero { at: u32 },
    /// A memory or stack access outside the memory image.
    OutOfBounds { address: i64, at: u32 },
}

/// What one step does to a machine state.
pub enum StepOutcome {
    /// The halt flag was already set: the step is a no-op.
    AlreadyHalted,
    /// One instruction executed, yielding the next state and its tick cost.
    Advanced { post: MachineView, ticks: u32 },
    /// The step raised a fatal fault; the state is unchanged.
    Faulted { fault: Fault },
}

/// The uniform operand addressing rule: bytes of 128 and above read register
/// `byte - 128`, anything below is an immediate literal.
pub open spec fn spec_resolve(m: MachineView, operand: u8) -> i32 {
    if operand >= 128 {
        m.registers[operand - 128]
    } else {
        operand as i32
    }
}

/// Reinterpretation of a 32-bit signed value as unsigned, as the jump
/// instructions perform it on the execution pointer.
pub open spec fn spec_u32_of_i32(x: i32) -> u32 {
    if x >= 0 {
        x as u32
    } else {
        (x + 0x1_0000_0000) as u32
    }
}

/// The low byte of a resolved operand value: what byte stores keep.
pub open spec fn spec_low_byte(x: i32) -> u8 {
    (spec_u32_of_i32(x) % 256) as u8
}

/// Integer division truncated toward zero, for a nonzero divisor: the
/// stepping stone between the hardware division below and floor division.
pub open spec fn trunc_div(x: int, d: int) -> int {
    if x == 0 {
        0
    } else if x > 0 && d > 0 {
        x / d
    } else if x < 0 && d < 0 {
        (x * -1) / (d * -1)
    } else if x < 0 {
        ((x * -1) / d) * -1
    } else {
        (x / (d * -1)) * -1
    }
}

/// Remainder of truncated division (sign of the dividend), for a nonzero
/// divisor.
pub open spec fn trunc_rem(x: int, d: int) -> int {
    if x == 0 {
        0
    } else if x > 0 && d > 0 {
        x % d
    } else if x < 0 && d < 0 {
        ((x * -1) % (d * -1)) * -1
    } else if x < 0 {
        ((x * -1) % d) * -1
    } else {
        x % (d * -1)
    }
}

/// Floor division: round the quotient toward minus infinity. Truncation
/// and floor agree when the division is exact or the signs agree; one below
/// otherwise.
pub open spec fn floor_div(x: int, d: int) -> int {
    if trunc_rem(x, d) == 0 || (x < 0) == (d < 0) {
        trunc_div(x, d)
    } else {
        trunc_div(x, d) - 1
    }
}

/// The remainder matching floor division; it has the sign of the divisor.
pub open spec fn floor_mod(x: int, d: int) -> int {
    x - d * floor_div(x, d)
}

/// The quotient the `div` opcode writes: floor division, wrapping on the
/// one overflowing case.
pub open spec fn spec_div_i32(a: i32, b: i32) -> i32 {
    if a == i32::MIN && b == -1 {
        i32::MIN
    } else {
        floor_div(a as int, b as int) as i32
    }
}

/// The remainder the `mod` opcode writes.
pub open spec fn spec_rem_i32(a: i32, b: i32) -> i32 {
    if a == i32::MIN && b == -1 {
        0
    } else {
        floor_mod(a as int, b as int) as i32
    }
}

/// Result write-back: only a first operand byte that denotes a register is
/// ever a write target.
pub open spec fn write_back(m: MachineView, operand_1: u8, result: Option<i32>) -> MachineView {
    if operand_1 >= 128 {
        match result {
            Some(value) => MachineView {
                registers: m.registers.update(operand_1 - 128, value),
                ..m
            },
            None => m,
        }
    } else {
        m
    }
}

/// Advance of the execution pointer at the end of a step.
pub open spec fn advanced(m: MachineView, inc: u32) -> MachineView {
    MachineView { execution_pointer: u32_specs::wrapping_add(m.execution_pointer, inc), ..m }
}

/// The machine's step function: what one call of `execute_line` does to a
/// machine state.
pub open spec fn step_spec(m: MachineView) -> StepOutcome {
    if spec_halted(m) {
        StepOutcome::AlreadyHalted
    } else if m.execution_pointer + 2 >= m.memory.len() {
        StepOutcome::Faulted {
            fault: Fault::OutOfBounds {
                address: (m.execution_pointer + 2) as i64,
                at: m.execution_pointer,
            },
        }
    } else {
        let ep = m.execution_pointer;
        let op = m.memory[ep as int];
        let b1 = m.memory[ep as int + 1];
        let b2 = m.memory[ep as int + 2];
        let a = spec_resolve(m, b1);
        let b = spec_resolve(m, b2);
        if op == ADD_INSTRUCTION {
            StepOutcome::Advanced {
                post: write_back(advanced(m, 3), b1, Some(i32_specs::wrapping_add(a, b))),
                ticks: 5,
            }
        } else if op == SUB_INSTRUCTION {
            StepOutcome::Advanced {
                post: write_back(advanced(m, 3), b1, Some(i32_specs::wrapping_sub(a, b))),
                ticks: 6,
            }
        } else if op == MUL_INSTRUCTION {
            StepOutcome::Advanced {
                post: write_back(advanced(m, 3), b1, Some(i32_specs::wrapping_mul(a, b))),
                ticks: 50,
            }
        } else if op == DIV_INSTRUCTION {
            if b == 0 {
                StepOutcome::Faulted { fault: Fault::DivisionByZero { at: ep } }
            } else {
                StepOutcome::Advanced {
                    post: write_back(advanced(m, 3), b1, Some(spec_div_i32(a, b))),
                    ticks: 50,
                }
            }
        } else if op == MOD_INSTRUCTION {
            if b == 0 {
                StepOutcome::Faulted { fault: Fault::DivisionByZero { at: ep } }
            } else {
                StepOutcome::Advanced {
                    post: write_back(advanced(m, 3), b1, Some(spec_rem_i32(a, b))),
                    ticks: 51,
                }
            }
        } else if op == MOVE_INSTRUCTION {
            StepOutcome::Advanced { post: write_back(advanced(m, 3), b1, Some(b)), ticks: 3 }
        } else if op == HALT_INSTRUCTION {
            StepOutcome::Advanced {
                post: advanced(MachineView { flags: m.flags | HALT_FLAG, ..m }, 100),
                ticks: 4,
            }
        } else if op == JUMP_INSTRUCTION {
            StepOutcome::Advanced {
                post: advanced(MachineView { execution_pointer: spec_u32_of_i32(a), ..m }, 0),
                ticks: 4,
            }
        } else if op == JUMP_ZERO_INSTRUCTION {
            StepOutcome::Advanced {
                post: advanced(
                    if a == 0 {
                        MachineView {
                            execution_pointer: spec_u32_of_i32(i32_specs::wrapping_sub(b, 3)),
                            ..m
                        }
                    } else {
                        m
                    },
                    3,
                ),
                ticks: 5,
            }
        } else if op == PUSH_BYTE_INSTRUCTION {
            if m.stack_pointer >= m.memory.len() {
                StepOutcome::Faulted {
                    fault: Fault::OutOfBounds { address: m.stack_pointer as i64, at: ep },
                }
            } else if m.stack_pointer == 0 {
                StepOutcome::Faulted { fault: Fault::OutOfBounds { address: -1i64, at: ep } }
            } else {
                StepOutcome::Advanced {
                    post: advanced(
                        MachineView {
                            memory: m.memory.update(m.stack_pointer as int, spec_low_byte(a)),
                            stack_pointer: (m.stack_pointer - 1) as u32,
                            ..m
                        },
                        2,
                    ),
                    ticks: 9,
                }
            }
        } else if op == POP_BYTE_INSTRUCTION {
            if m.stack_pointer + 1 >= m.memory.len() {
                StepOutcome::Faulted {
                    fault: Fault::OutOfBounds { address: (m.stack_pointer + 1) as i64, at: ep },
                }
            } else {
                StepOutcome::Advanced {
                    post: write_back(
                        advanced(
                            MachineView { stack_pointer: (m.stack_pointer + 1) as u32, ..m },
                            2,
                        ),
                        b1,
                        Some(m.memory[m.stack_pointer as int + 1] as i32),
                    ),
                    ticks: 9,
                }
            }
        } else if op == STANDARD_OUTPUT_WRITE_INSTRUCTION {
            StepOutcome::Advanced {
                post: advanced(
                    MachineView {
                        standard_output: m.standard_output.push(spec_low_byte(a)),
                        ..m
                    },
                    2,
                ),
                ticks: 2,
            }
        } else if op == STANDARD_OUTPUT_CLEAR_INSTRUCTION {
            StepOutcome::Advanced {
                post: advanced(MachineView { standard_output: Seq::empty(), ..m }, 1),
                ticks: 1,
            }
        } else if op == LOAD_BYTE_INSTRUCTION {
            if b < 0 || b >= m.memory.len() {
                StepOutcome::Faulted {
                    fault: Fault::OutOfBounds { address: b as i64, at: ep },
                }
            } else {
                StepOutcome::Advanced {
                    post: write_back(advanced(m, 3), b1, Some(m.memory[b as int] as i32)),
                    ticks: 5,
                }
            }
        } else if op == STORE_BYTE_INSTRUCTION {
            if b < 0 || b >= m.memory.len() {
                StepOutcome::Faulted {
                    fault: Fault::OutOfBounds { address: b as i64, at: ep },
                }
            } else {
                StepOutcome::Advanced {
                    post: advanced(
                        MachineView { memory: m.memory.update(b as int, spec_low_byte(a)), ..m },
                        3,
                    ),
                    ticks: 5,
                }
            }
        } else {
            // An unrecognized opcode executes as a no-op with no pointer
            // advance, as the dispatch assigns no other default.
            StepOutcome::Advanced { post: m, ticks: 1 }
        }
    }
}

/// The diagnostic text a step reports: the disassembly of the fetched
/// instruction, or the placeholder for an unrecognized opcode.
pub open spec fn spec_step_name(m: MachineView) -> Seq<char> {
    let op = m.memory[m.execution_pointer as int];
    let b1 = m.memory[m.execution_pointer as int + 1];
    let b2 = m.memory[m.execution_pointer as int + 2];
    if spec_is_defined_opcode(op) {
        spec_disassembly(op, b1, b2)
    } else {
        ("nothing.")@
    }
}

fn u32_of_i32(x: i32) -> (r: u32)
    ensures
        r == spec_u32_of_i32(x),
{
    if x >= 0 {
        x as u32
    } else {
        ((x as i64) + 0x1_0000_0000i64) as u32
    }
}

fn low_byte(x: i32) -> (r: u8)
    ensures
        r == spec_low_byte(x),
{
    (u32_of_i32(x) % 256) as u8
}

/// Bounds on a nonnegative division: the quotient never exceeds the
/// dividend, a divisor of one returns it whole, and a divisor of at least
/// two at most halves it.
proof fn lemma_udiv_bounds(p: int, e: int)
    requires
        0 <= p <= 0x8000_0000,
        1 <= e,
    ensures
        0 <= p / e <= p,
        e == 1 ==> p / e == p,
        e >= 2 ==> p / e <= 0x4000_0000,
{
    vstd::arithmetic::div_mod::lemma_div_pos_is_pos(p, e);
    vstd::arithmetic::div_mod::lemma_div_nonincreasing(p, e);
    if e == 1 {
        vstd::arithmetic::div_mod::lemma_div_basics(p);
    } else {
        vstd::arithmetic::div_mod::lemma_fundamental_div_mod(p, e);
        vstd::arithmetic::div_mod::lemma_mod_division_less_than_divisor(p, e);
        assert(e * (p / e) >= 2 * (p / e)) by (nonlinear_arith)
            requires
                e >= 2,
                p / e >= 0,
        ;
    }
}

/// Magnitude bounds on truncated division: within the 32-bit operand range
/// only the most negative value divided by minus one leaves the range, and
/// a divisor of magnitude two or more keeps the quotient within half of it.
proof fn lemma_trunc_div_range(x: int, d: int)
    requires
        -0x8000_0000 <= x <= 0x7fff_ffff,
        -0x8000_0000 <= d <= 0x7fff_ffff,
        d != 0,
        !(x == -0x8000_0000 && d == -1),
    ensures
        -0x8000_0000 <= trunc_div(x, d) <= 0x7fff_ffff,
        d >= 2 || d <= -2 ==> -0x4000_0000 <= trunc_div(x, d) <= 0x4000_0000,
{
    if x == 0 {
    } else if x > 0 && d > 0 {
        lemma_udiv_bounds(x, d);
    } else if x < 0 && d < 0 {
        lemma_udiv_bounds(x * -1, d * -1);
    } else if x < 0 {
        lemma_udiv_bounds(x * -1, d);
    } else {
        lemma_udiv_bounds(x, d * -1);
    }
}

/// Truncated division and its remainder: the defining identity, and the
/// remainder's range (its sign is the dividend's, its magnitude below the
/// divisor's).
proof fn lemma_trunc_div_mod(x: int, d: int)
    requires
        d != 0,
    ensures
        x == d * trunc_div(x, d) + trunc_rem(x, d),
        x >= 0 ==> 0 <= trunc_rem(x, d) < (if d > 0 { d } else { d * -1 }),
        x < 0 ==> (if d > 0 { d } else { d * -1 }) * -1 < trunc_rem(x, d) <= 0,
{
    let e = if d > 0 { d } else { d * -1 };
    let p = if x >= 0 { x } else { x * -1 };
    vstd::arithmetic::div_mod::lemma_fundamental_div_mod(p, e);
    vstd::arithmetic::div_mod::lemma_mod_division_less_than_divisor(p, e);
    vstd::arithmetic::div_mod::lemma_div_pos_is_pos(p, e);
    let q = p / e;
    let r = p % e;
    if x == 0 {
    } else if x > 0 && d > 0 {
    } else if x < 0 && d < 0 {
        assert(x == d * q + r * -1) by (nonlinear_arith)
            requires
                p == e * q + r,
                x == p * -1,
                d == e * -1,
        ;
    } else if x < 0 {
        assert(x == d * (q * -1) + r * -1) by (nonlinear_arith)
            requires
                p == d * q + r,
                x == p * -1,
        ;
    } else {
        assert(x == d * (q * -1) + r) by (nonlinear_arith)
            requires
                p == e * q + r,
                x == p,
                d == e * -1,
        ;
    }
}

/// Floor division deserves its name: together with its remainder it
/// reassembles the dividend, and the remainder lies on the divisor's side
/// of zero, below the divisor in magnitude.
pub proof fn lemma_floor_division_properties(x: int, d: int)
    requires
        d != 0,
    ensures
        x == d * floor_div(x, d) + floor_mod(x, d),
        d > 0 ==> 0 <= floor_mod(x, d) < d,
        d < 0 ==> d < floor_mod(x, d) <= 0,
{
    lemma_trunc_div_mod(x, d);
    let qt = trunc_div(x, d);
    if !(trunc_rem(x, d) == 0 || (x < 0) == (d < 0)) {
        assert(d * (qt - 1) == d * qt - d) by (nonlinear_arith);
    }
}

fn div_i32(a: i32, b: i32) -> (r: i32)
    requires
        b != 0,
    ensures
        r == spec_div_i32(a, b),
{
    if a == i32::MIN && b == -1 {
        return i32::MIN;
    }
    proof {
        lemma_trunc_div_range(a as int, b as int);
        lemma_trunc_div_mod(a as int, b as int);
    }
    let quotient = match a.checked_div(b) {
        Some(q) => q,
        None => i32::MIN,
    };
    let remainder = match a.checked_rem(b) {
        Some(t) => t,
        None => 0,
    };
    if remainder != 0 && ((a < 0) != (b < 0)) {
        quotient - 1
    } else {
        quotient
    }
}

fn rem_i32(a: i32, b: i32) -> (r: i32)
    requires
        b != 0,
    ensures
        r == spec_rem_i32(a, b),
{
    if a == i32::MIN && b == -1 {
        return 0;
    }
    proof {
        lemma_trunc_div_mod(a as int, b as int);
        let qt = trunc_div(a as int, b as int);
        assert((b as int) * (qt - 1) == (b as int) * qt - (b as int)) by (nonlinear_arith);
    }
    let remainder = match a.checked_rem(b) {
        Some(t) => t,
        None => 0,
    };
    if remainder != 0 && ((a < 0) != (b < 0)) {
        remainder + b
    } else {
        remainder
    }
}

impl Machine {
    /// Executes exactly one instruction, following `step_spec`: fetch three
    /// bytes, resolve the operands, dispatch, write the result back, and
    /// advance the execution pointer. Returns the disassembly text and the
    /// tick cost of the step (with a fixed fetch overhead of 9 added), or
    /// the fault that stopped it, in which case the state is unchanged.
    pub fn execute_line(&mut self) -> (r: Result<(String, u32), Fault>)
        requires
            old(self).wf(),
        ensures
            final(self).wf(),
            ({
                let pre = old(self)@;
                match step_spec(pre) {
                    StepOutcome::AlreadyHalted => {
                        &&& final(self)@ == pre
                        &&& r matches Ok(out) && out.0@ == ("no instruction")@ && out.1 == 1u32
                    },
                    StepOutcome::Advanced { post, ticks } => {
                        &&& final(self)@ == post
                        &&& r matches Ok(out) && out.0@ == spec_step_name(pre) && out.1 == ticks
                            + 9
                    },
                    StepOutcome::Faulted { fault } => {
                        &&& final(self)@ == pre
                        &&& r matches Err(f) && f == fault
                    },
                }
            }),
    {
        // Check the halt bit and avoid any further execution.
        if self.flags & HALT_FLAG >= 1 {
            return Ok((String::from_str("no instruction"), 1));
        }
        let ep = self.execution_pointer;
        if (ep as u64) + 2 >= (self.memory.len() as u64) {
            return Err(Fault::OutOfBounds { address: (ep as i64) + 2, at: ep });
        }
        // Fetch.
        let instruction = self.memory[ep as usize];
        let operand_1 = self.memory[(ep as usize) + 1];
        let operand_2 = self.memory[(ep as usize) + 2];

        let instruction_name = match Instruction::name_of_instruction(
            instruction,
            operand_1,
            operand_2,
        ) {
            Some(name) => name,
            None => String::from_str("nothing."),
        };

        // Read registers, or pass the data from the operands.
        let data_1 = if operand_1 >= 128 {
            self.data_of_register_by_value(operand_1 - 128)
        } else {
            operand_1 as i32
        };
        let data_2 = if operand_2 >= 128 {
            self.data_of_register_by_value(operand_2 - 128)
        } else {
            operand_2 as i32
        };

        let mut result: Option<i32> = None;
        let mut ticks: u32 = 1;
        let mut execution_pointer_inc: u32 = 0;

        if instruction == ADD_INSTRUCTION {
            result = Some(data_1.wrapping_add(data_2));
            ticks = 5;
            execution_pointer_inc = 3;
        } else if instruction == SUB_INSTRUCTION {
            result = Some(data_1.wrapping_sub(data_2));
            ticks = 6;
            execution_pointer_inc = 3;
        } else if instruction == MUL_INSTRUCTION {
            result = Some(data_1.wrapping_mul(data_2));
            ticks = 50;
            execution_pointer_inc = 3;
        } else if instruction == DIV_INSTRUCTION {
            if data_2 == 0 {
                return Err(Fault::DivisionByZero { at: ep });
            }
            result = Some(div_i32(data_1, data_2));
            ticks = 50;
            execution_pointer_inc = 3;
        } else if instruction == MOD_INSTRUCTION {
            if data_2 == 0 {
                return Err(Fault::DivisionByZero { at: ep });
            }
            result = Some(rem_i32(data_1, data_2));
            ticks = 51;
            execution_pointer_inc = 3;
        } else if instruction == MOVE_INSTRUCTION {
            result = Some(data_2);
            ticks = 3;
            execution_pointer_inc = 3;
        } else if instruction == HALT_INSTRUCTION {
            // Set the halt bit; the sentinel advance leaves the program
            // region for good measure.
            self.flags = self.flags | HALT_FLAG;
            ticks = 4;
            execution_pointer_inc = 100;
        } else if instruction == JUMP_INSTRUCTION {
            self.execution_pointer = u32_of_i32(data_1);
            ticks = 4;
            execution_pointer_inc = 0;
        } else if instruction == JUMP_ZERO_INSTRUCTION {
            // The branch-taken target is written as `target - 3` so that the
            // uniform advance of 3 below lands exactly on `target`.
            if data_1 == 0 {
                self.execution_pointer = u32_of_i32(data_2.wrapping_sub(3));
            }
            ticks = 5;
            execution_pointer_inc = 3;
        } else if instruction == PUSH_BYTE_INSTRUCTION {
            if (self.stack_pointer as usize) >= self.memory.len() {
                return Err(Fault::OutOfBounds { address: self.stack_pointer as i64, at: ep });
            }
            if self.stack_pointer == 0 {
                return Err(Fault::OutOfBounds { address: -1, at: ep });
            }
            let top = self.stack_pointer as usize;
            self.memory[top] = low_byte(data_1);
            self.stack_pointer = self.stack_pointer - 1;
            ticks = 9;
            execution_pointer_inc = 2;
        } else if instruction == POP_BYTE_INSTRUCTION {
            if (self.stack_pointer as u64) + 1 >= (self.memory.len() as u64) {
                return Err(Fault::OutOfBounds {
                    address: (self.stack_pointer as i64) + 1,
                    at: ep,
                });
            }
            result = Some(self.memory[(self.stack_pointer as usize) + 1] as i32);
            self.stack_pointer = self.stack_pointer + 1;
            ticks = 9;
            execution_pointer_inc = 2;
        } else if instruction == STANDARD_OUTPUT_WRITE_INSTRUCTION {
            self.standard_output.push(low_byte(data_1));
            ticks = 2;
            execution_pointer_inc = 2;
        } else if instruction == STANDARD_OUTPUT_CLEAR_INSTRUCTION {
            self.standard_output.clear();
            ticks = 1;
            execution_pointer_inc = 1;
        } else if instruction == LOAD_BYTE_INSTRUCTION {
            if data_2 < 0 || (data_2 as usize) >= self.memory.len() {
                return Err(Fault::OutOfBounds { address: data_2 as i64, at: ep });
            }
            result = Some(self.memory[data_2 as usize] as i32);
            ticks = 5;
            execution_pointer_inc = 3;
        } else if instruction == STORE_BYTE_INSTRUCTION {
            if data_2 < 0 || (data_2 as usize) >= self.memory.len() {
                return Err(Fault::OutOfBounds { address: data_2 as i64, at: ep });
            }
            self.memory[data_2 as usize] = low_byte(data_1);
            ticks = 5;
            execution_pointer_inc = 3;
        } else {
            result = None;
            ticks = 1;
            execution_pointer_inc = 0;
        }

        // Update the execution pointer.
        self.execution_pointer = self.execution_pointer.wrapping_add(execution_pointer_inc);

        // Write the result back if the first operand denoted a register.
        if operand_1 >= 128 {
            if let Some(value) = result {
                self.set_data_of_register(operand_1 - 128, value);
            }
        }

        Ok((instruction_name, ticks + 9))
    }
}

/// One advancing step leads from `pre` to `post`.
pub open spec fn step_advances(pre: MachineView, post: MachineView) -> bool {
    match step_spec(pre) {
        StepOutcome::Advanced { post: next, ticks } => next == post,
        _ => false,
    }
}

/// `post` is reached from `pre` by exactly `n` advancing steps.
pub open spec fn runs_n(pre: MachineView, post: MachineView, n: nat) -> bool
    decreases n,
{
    if n == 0 {
        post == pre
    } else {
        exists|mid: MachineView| runs_n(pre, mid, (n - 1) as nat) && step_advances(mid, post)
    }
}

/// `post` is reached from `pre` by some number of advancing steps.
pub open spec fn reaches(pre: MachineView, post: MachineView) -> bool {
    exists|n: nat| runs_n(pre, post, n)
}

pub proof fn lemma_reaches_refl(m: MachineView)
    ensures
        reaches(m, m),
{
    assert(runs_n(m, m, 0));
}

pub proof fn lemma_runs_n_step(a: MachineView, b: MachineView, c: MachineView, n: nat)
    requires
        runs_n(a, b, n),
        step_advances(b, c),
    ensures
        runs_n(a, c, n + 1),
{
    assert(runs_n(a, b, n) && step_advances(b, c));
}

pub proof fn lemma_reaches_step(a: MachineView, b: MachineView, c: MachineView)
    requires
        reaches(a, b),
        step_advances(b, c),
    ensures
        reaches(a, c),
{
    let n = choose|n: nat| runs_n(a, b, n);
    lemma_runs_n_step(a, b, c, n);
    assert(runs_n(a, c, n + 1));
}

/// How far the machine may run; `Finished` means the halt flag was set or
/// the execution pointer left the program region.
#[derive(Clone, Copy, PartialEq, Eq, Structural, Debug)]
pub enum RunStatus {
    Finished,
    StepLimit,
}

impl Machine {
    /// The run loop: repeatedly executes one instruction while the machine
    /// is running and the execution pointer stays inside the program region,
    /// up to `max_steps` instructions. Stops on the first fault, with the
    /// machine left in the state that raised it; a `StepLimit` end means the
    /// whole budget was spent on advancing steps and the machine was still
    /// running. Any wall-clock throttling belongs to the caller, never to
    /// the step itself.
    pub fn run(&mut self, program_region_end: u32, max_steps: u64) -> (r: Result<
        RunStatus,
        Fault,
    >)
        requires
            old(self).wf(),
        ensures
            final(self).wf(),
            reaches(old(self)@, final(self)@),
            r matches Ok(RunStatus::Finished) ==> spec_halted(final(self)@)
                || final(self)@.execution_pointer >= program_region_end,
            r matches Ok(RunStatus::StepLimit) ==> runs_n(
                old(self)@,
                final(self)@,
                max_steps as nat,
            ) && !spec_halted(final(self)@) && final(self)@.execution_pointer
                < program_region_end,
            r matches Err(fault) ==> step_spec(final(self)@) == (StepOutcome::Faulted { fault }),
            spec_halted(old(self)@) ==> final(self)@ == old(self)@
                && r matches Ok(RunStatus::Finished),
    {
        let ghost start = self@;
        proof {
            lemma_reaches_refl(start);
        }
        let mut steps_left: u64 = max_steps;
        while (self.flags & HALT_FLAG < 1) && self.execution_pointer < program_region_end
            invariant
                start == old(self)@,
                self.wf(),
                steps_left <= max_steps,
                runs_n(start, self@, (max_steps - steps_left) as nat),
                reaches(start, self@),
                spec_halted(start) ==> self@ == start,
            decreases steps_left,
        {
            if steps_left == 0 {
                return Ok(RunStatus::StepLimit);
            }
            steps_left = steps_left - 1;
            let ghost before = self@;
            match self.execute_line() {
                Ok(step) => {
                    proof {
                        lemma_runs_n_step(
                            start,
                            before,
                            self@,
                            (max_steps - steps_left - 1) as nat,
                        );
                        lemma_reaches_step(start, before, self@);
                    }
                },
                Err(fault) => {
                    return Err(fault);
                },
            }
        }
        Ok(RunStatus::Finished)
    }
}

} // verus!
