//! The instruction catalog: the fixed set of opcodes and a disassembly
//! rendering for each encoded instruction.
//!
//! The catalog has no effect on execution semantics; the machine core
//! dispatches on the same opcode constants directly.

use vstd::prelude::*;

verus! {

/// A decoded view of one three-byte instruction: an opcode byte and the two
/// operand bytes that follow it.
#[derive(Clone, Copy, PartialEq, Eq, Structural, Debug)]
pub struct Instruction {
    pub task: u8,
    pub arg0: u8,
    pub arg1: u8,
}

pub const STANDARD_OUTPUT_WRITE_INSTRUCTION: u8 = 0x01;
pub const STANDARD_OUTPUT_CLEAR_INSTRUCTION: u8 = 0x02;
pub const ADD_INSTRUCTION: u8 = 0x40;
pub const SUB_INSTRUCTION: u8 = 0x41;
pub const MUL_INSTRUCTION: u8 = 0x42;
pub const DIV_INSTRUCTION: u8 = 0x43;
pub const MOD_INSTRUCTION: u8 = 0x44;
pub const HALT_INSTRUCTION: u8 = 0x60;
pub const MOVE_INSTRUCTION: u8 = 0x61;
pub const JUMP_INSTRUCTION: u8 = 0x62;
pub const JUMP_ZERO_INSTRUCTION: u8 = 0x63;
pub const LOAD_BYTE_INSTRUCTION: u8 = 0x64;
pub const PUSH_BYTE_INSTRUCTION: u8 = 0x65;
pub const POP_BYTE_INSTRUCTION: u8 = 0x6C;
pub const STORE_BYTE_INSTRUCTION: u8 = 0x74;

/// Register index conventionally reserved to mirror the flags word.
pub const FLAGS_REGISTER: u8 = 12 + 128;
/// Register index conventionally reserved to mirror the execution pointer.
pub const EXEC_PTR_REGISTER: u8 = 15 + 128;
pub const EMPTY_ARGUMENT: u8 = 0;

/// The opcodes the catalog recognizes; every other byte is treated as an
/// unrecognized instruction.
pub open spec fn spec_is_defined_opcode(task: u8) -> bool {
    ||| task == ADD_INSTRUCTION
    ||| task == SUB_INSTRUCTION
    ||| task == MUL_INSTRUCTION
    ||| task == DIV_INSTRUCTION
    ||| task == MOD_INSTRUCTION
    ||| task == HALT_INSTRUCTION
    ||| task == MOVE_INSTRUCTION
    ||| task == JUMP_INSTRUCTION
    ||| task == JUMP_ZERO_INSTRUCTION
    ||| task == LOAD_BYTE_INSTRUCTION
    ||| task == PUSH_BYTE_INSTRUCTION
    ||| task == POP_BYTE_INSTRUCTION
    ||| task == STORE_BYTE_INSTRUCTION
    ||| task == STANDARD_OUTPUT_WRITE_INSTRUCTION
    ||| task == STANDARD_OUTPUT_CLEAR_INSTRUCTION
}

pub open spec fn spec_digit_char(d: int) -> char {
    if d == 0 {
        '0'
    } else if d == 1 {
        '1'
    } else if d == 2 {
        '2'
    } else if d == 3 {
        '3'
    } else if d == 4 {
        '4'
    } else if d == 5 {
        '5'
    } else if d == 6 {
        '6'
    } else if d == 7 {
        '7'
    } else if d == 8 {
        '8'
    } else {
        '9'
    }
}

/// Decimal text of an operand value, zero-padded to at least two digits,
/// exactly as the disassembly prints it.
pub open spec fn spec_decimal_text(n: int) -> Seq<char> {
    if n >= 100 {
        seq![spec_digit_char(n / 100), spec_digit_char((n / 10) % 10), spec_digit_char(n % 10)]
    } else {
        seq![spec_digit_char(n / 10), spec_digit_char(n % 10)]
    }
}

/// How one operand byte is rendered: `R` and the register number for bytes of
/// 128 and above, `N` and the literal value otherwise.
pub open spec fn spec_operand_text(operand: u8) -> Seq<char> {
    if operand >= 128 {
        seq!['R'] + spec_decimal_text(operand - 128)
    } else {
        seq!['N'] + spec_decimal_text(operand as int)
    }
}

/// The full disassembly line for a recognized opcode (unspecified text for an
/// unrecognized one, which the renderer never produces).
pub open spec fn spec_disassembly(task: u8, arg_1: u8, arg_2: u8) -> Seq<char> {
    let one = spec_operand_text(arg_1) + seq![' '];
    let two = spec_operand_text(arg_2);
    if task == ADD_INSTRUCTION {
        ("add ")@ + one + two
    } else if task == SUB_INSTRUCTION {
        ("sub ")@ + one + two
    } else if task == MUL_INSTRUCTION {
        ("mul ")@ + one + two
    } else if task == DIV_INSTRUCTION {
        ("div ")@ + one + two
    } else if task == MOD_INSTRUCTION {
        ("mod ")@ + one + two
    } else if task == HALT_INSTRUCTION {
        ("halt ")@
    } else if task == MOVE_INSTRUCTION {
        ("mov ")@ + one + two
    } else if task == JUMP_INSTRUCTION {
        ("jmp ")@ + one
    } else if task == PUSH_BYTE_INSTRUCTION {
        ("pushb ")@ + one + two
    } else if task == JUMP_ZERO_INSTRUCTION {
        ("jmpz ")@ + one + two
    } else if task == LOAD_BYTE_INSTRUCTION {
        ("ldb ")@ + one + two
    } else if task == STORE_BYTE_INSTRUCTION {
        ("stb ")@ + one + two
    } else if task == POP_BYTE_INSTRUCTION {
        ("popb ")@ + one
    } else if task == STANDARD_OUTPUT_WRITE_INSTRUCTION {
        ("sow ")@ + one
    } else if task == STANDARD_OUTPUT_CLEAR_INSTRUCTION {
        ("soc ")@
    } else {
        Seq::empty()
    }
}

/// One decimal digit as text.
fn digit_text(d: u8) -> (r: &'static str)
    requires
        d < 10,
    ensures
        r@ == seq![spec_digit_char(d as int)],
{
    proof {
        reveal_strlit("0");
        reveal_strlit("1");
        reveal_strlit("2");
        reveal_strlit("3");
        reveal_strlit("4");
        reveal_strlit("5");
        reveal_strlit("6");
        reveal_strlit("7");
        reveal_strlit("8");
        reveal_strlit("9");
    }
    let r = if d == 0 {
        "0"
    } else if d == 1 {
        "1"
    } else if d == 2 {
        "2"
    } else if d == 3 {
        "3"
    } else if d == 4 {
        "4"
    } else if d == 5 {
        "5"
    } else if d == 6 {
        "6"
    } else if d == 7 {
        "7"
    } else if d == 8 {
        "8"
    } else {
        "9"
    };
    proof {
        assert(r@ =~= seq![spec_digit_char(d as int)]);
    }
    r
}

/// The text of one operand byte: `R` or `N` and the zero-padded value.
fn operand_text(operand: u8) -> (r: String)
    ensures
        r@ == spec_operand_text(operand),
{
    let mut s: String;
    let value: u8;
    if operand >= 128 {
        s = String::from_str("R");
        value = operand - 128;
    } else {
        s = String::from_str("N");
        value = operand;
    }
    proof {
        reveal_strlit("R");
        reveal_strlit("N");
    }
    if value >= 100 {
        s.append(digit_text(value / 100));
        s.append(digit_text((value / 10) % 10));
        s.append(digit_text(value % 10));
    } else {
        s.append(digit_text(value / 10));
        s.append(digit_text(value % 10));
    }
    proof {
        assert(s@ =~= spec_operand_text(operand));
    }
    s
}

impl Instruction {
    /// Renders the disassembly text of one encoded instruction, or `None`
    /// for an opcode the catalog does not define.
    pub fn name_of_instruction(task: u8, arg_1: u8, arg_2: u8) -> (r: Option<String>)
        ensures
            r is Some <==> spec_is_defined_opcode(task),
            r matches Some(s) ==> s@ == spec_disassembly(task, arg_1, arg_2),
    {
        let mut arg_1_text = operand_text(arg_1);
        arg_1_text.append(" ");
        let arg_2_text = operand_text(arg_2);
        proof {
            reveal_strlit(" ");
            assert(arg_1_text@ =~= spec_operand_text(arg_1) + seq![' ']);
        }
        if task == ADD_INSTRUCTION {
            let mut s = String::from_str("add ");
            s.append(arg_1_text.as_str());
            s.append(arg_2_text.as_str());
            Some(s)
        } else if task == SUB_INSTRUCTION {
            let mut s = String::from_str("sub ");
            s.append(arg_1_text.as_str());
            s.append(arg_2_text.as_str());
            Some(s)
        } else if task == MUL_INSTRUCTION {
            let mut s = String::from_str("mul ");
            s.append(arg_1_text.as_str());
            s.append(arg_2_text.as_str());
            Some(s)
        } else if task == DIV_INSTRUCTION {
            let mut s = String::from_str("div ");
            s.append(arg_1_text.as_str());
            s.append(arg_2_text.as_str());
            Some(s)
        } else if task == MOD_INSTRUCTION {
            let mut s = String::from_str("mod ");
            s.append(arg_1_text.as_str());
            s.append(arg_2_text.as_str());
            Some(s)
        } else if task == HALT_INSTRUCTION {
            Some(String::from_str("halt "))
        } else if task == MOVE_INSTRUCTION {
            let mut s = String::from_str("mov ");
            s.append(arg_1_text.as_str());
            s.append(arg_2_text.as_str());
            Some(s)
        } else if task == JUMP_INSTRUCTION {
            let mut s = String::from_str("jmp ");
            s.append(arg_1_text.as_str());
            Some(s)
        } else if task == PUSH_BYTE_INSTRUCTION {
            let mut s = String::from_str("pushb ");
            s.append(arg_1_text.as_str());
            s.append(arg_2_text.as_str());
            Some(s)
        } else if task == JUMP_ZERO_INSTRUCTION {
            let mut s = String::from_str("jmpz ");
            s.append(arg_1_text.as_str());
            s.append(arg_2_text.as_str());
            Some(s)
        } else if task == LOAD_BYTE_INSTRUCTION {
            let mut s = String::from_str("ldb ");
            s.append(arg_1_text.as_str());
            s.append(arg_2_text.as_str());
            Some(s)
        } else if task == STORE_BYTE_INSTRUCTION {
            let mut s = String::from_str("stb ");
            s.append(arg_1_text.as_str());
            s.append(arg_2_text.as_str());
            Some(s)
        } else if task == POP_BYTE_INSTRUCTION {
            let mut s = String::from_str("popb ");
            s.append(arg_1_text.as_str());
            Some(s)
        } else if task == STANDARD_OUTPUT_WRITE_INSTRUCTION {
            let mut s = String::from_str("sow ");
            s.append(arg_1_text.as_str());
            Some(s)
        } else if task == STANDARD_OUTPUT_CLEAR_INSTRUCTION {
            Some(String::from_str("soc "))
        } else {
            None
        }
    }
}

} // verus!
