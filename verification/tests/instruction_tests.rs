use bytevm::instruction::Instruction;

#[test]
fn add_disassembles_with_register_and_literal() {
    let text = Instruction::name_of_instruction(0x40, 128, 5);
    assert_eq!(text, Some("add R00 N05".to_string()));
}

#[test]
fn sub_mul_div_mod_disassemble() {
    assert_eq!(Instruction::name_of_instruction(0x41, 129, 130), Some("sub R01 R02".to_string()));
    assert_eq!(Instruction::name_of_instruction(0x42, 128, 2), Some("mul R00 N02".to_string()));
    assert_eq!(Instruction::name_of_instruction(0x43, 128, 3), Some("div R00 N03".to_string()));
    assert_eq!(Instruction::name_of_instruction(0x44, 128, 4), Some("mod R00 N04".to_string()));
}

#[test]
fn halt_and_soc_take_no_operands() {
    assert_eq!(Instruction::name_of_instruction(0x60, 11, 22), Some("halt ".to_string()));
    assert_eq!(Instruction::name_of_instruction(0x02, 11, 22), Some("soc ".to_string()));
}

#[test]
fn single_operand_forms_keep_the_trailing_space() {
    assert_eq!(Instruction::name_of_instruction(0x62, 10, 0), Some("jmp N10 ".to_string()));
    assert_eq!(Instruction::name_of_instruction(0x6C, 130, 0), Some("popb R02 ".to_string()));
    assert_eq!(Instruction::name_of_instruction(0x01, 88, 0), Some("sow N88 ".to_string()));
}

#[test]
fn two_operand_forms() {
    assert_eq!(Instruction::name_of_instruction(0x61, 129, 127), Some("mov R01 N127".to_string()));
    assert_eq!(Instruction::name_of_instruction(0x63, 255, 100), Some("jmpz R127 N100".to_string()));
    assert_eq!(Instruction::name_of_instruction(0x64, 128, 99), Some("ldb R00 N99".to_string()));
    assert_eq!(Instruction::name_of_instruction(0x74, 5, 99), Some("stb N05 N99".to_string()));
    assert_eq!(Instruction::name_of_instruction(0x65, 42, 0), Some("pushb N42 N00".to_string()));
}

#[test]
fn three_digit_values_render_unpadded() {
    assert_eq!(Instruction::name_of_instruction(0x62, 100, 0), Some("jmp N100 ".to_string()));
    assert_eq!(Instruction::name_of_instruction(0x62, 127, 0), Some("jmp N127 ".to_string()));
    assert_eq!(Instruction::name_of_instruction(0x62, 228, 0), Some("jmp R100 ".to_string()));
}

#[test]
fn unknown_opcodes_have_no_name() {
    assert_eq!(Instruction::name_of_instruction(0x00, 0, 0), None);
    assert_eq!(Instruction::name_of_instruction(0xFF, 1, 2), None);
    assert_eq!(Instruction::name_of_instruction(0x45, 1, 2), None);
}

#[test]
fn instruction_is_a_plain_copyable_value() {
    let a = Instruction { task: 0x40, arg0: 128, arg1: 5 };
    let b = a;
    assert_eq!(a, b);
    assert_eq!(a.clone(), b);
}
