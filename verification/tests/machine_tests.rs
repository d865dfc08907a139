use bytevm::execution::Fault;
use bytevm::execution::RunStatus;
use bytevm::machine::Machine;
use bytevm::machine::DEFAULT_PROGRAM_REGION_END;
use bytevm::machine::HALT_FLAG;
use bytevm::machine::INITIAL_STACK_POINTER;
use bytevm::machine::MEMORY_SIZE;

fn machine_with(program: &[u8]) -> Machine {
    let mut machine = Machine::new();
    machine.set_ram(0, program.to_vec());
    machine
}

fn run_to_end(machine: &mut Machine) {
    let status = machine.run(DEFAULT_PROGRAM_REGION_END, 10_000).expect("no fault expected");
    assert_eq!(status, RunStatus::Finished);
}

#[test]
fn new_machine_starts_zeroed() {
    let machine = Machine::new();
    assert_eq!(machine.memory.len(), MEMORY_SIZE);
    assert!(machine.memory.iter().all(|&b| b == 0));
    assert_eq!(machine.registers.len(), 128);
    assert!(machine.registers.iter().all(|&r| r == 0));
    assert_eq!(machine.execution_pointer, 0);
    assert_eq!(machine.stack_pointer, INITIAL_STACK_POINTER);
    assert_eq!(machine.flags, 0);
    assert!(machine.standard_output.is_empty());
}

#[test]
fn set_ram_copies_bytes_at_offset() {
    let mut machine = Machine::new();
    machine.set_ram(10, vec![1, 2, 3]);
    assert_eq!(machine.memory[9], 0);
    assert_eq!(machine.memory[10], 1);
    assert_eq!(machine.memory[11], 2);
    assert_eq!(machine.memory[12], 3);
    assert_eq!(machine.memory[13], 0);
}

#[test]
fn add_writes_sum_and_advances_three() {
    // mov R0, 5; add R0, 3
    let mut machine = machine_with(&[0x61, 128, 5, 0x40, 128, 3]);
    machine.execute_line().unwrap();
    let (name, ticks) = machine.execute_line().unwrap();
    assert_eq!(machine.registers[0], 8);
    assert_eq!(machine.execution_pointer, 6);
    assert_eq!(name, "add R00 N03");
    assert_eq!(ticks, 5 + 9);
}

#[test]
fn sub_mul_write_exact_results() {
    let mut machine = machine_with(&[0x41, 128, 3, 0x42, 128, 7]);
    machine.registers[0] = 10;
    machine.execute_line().unwrap();
    assert_eq!(machine.registers[0], 7);
    machine.execute_line().unwrap();
    assert_eq!(machine.registers[0], 49);
    assert_eq!(machine.execution_pointer, 6);
}

#[test]
fn div_and_mod_floor_negative_dividends() {
    let mut machine = machine_with(&[0x43, 129, 2, 0x44, 130, 2]);
    machine.registers[1] = -7;
    machine.registers[2] = -7;
    machine.execute_line().unwrap();
    assert_eq!(machine.registers[1], -4);
    machine.execute_line().unwrap();
    assert_eq!(machine.registers[2], 1);
}

#[test]
fn div_and_mod_floor_negative_divisors() {
    let mut machine = machine_with(&[0x43, 129, 130, 0x44, 131, 130]);
    machine.registers[1] = 7;
    machine.registers[2] = -2;
    machine.registers[3] = 7;
    machine.execute_line().unwrap();
    assert_eq!(machine.registers[1], -4);
    machine.execute_line().unwrap();
    assert_eq!(machine.registers[3], -1);
}

#[test]
fn div_and_mod_of_exact_and_positive_operands() {
    let mut machine = machine_with(&[0x43, 129, 2, 0x44, 130, 3]);
    machine.registers[1] = -8;
    machine.registers[2] = 7;
    machine.execute_line().unwrap();
    assert_eq!(machine.registers[1], -4);
    machine.execute_line().unwrap();
    assert_eq!(machine.registers[2], 1);
}

#[test]
fn addition_wraps_like_the_registers() {
    let mut machine = machine_with(&[0x40, 128, 1]);
    machine.registers[0] = i32::MAX;
    machine.execute_line().unwrap();
    assert_eq!(machine.registers[0], i32::MIN);
}

#[test]
fn division_by_zero_is_a_reported_fault() {
    let mut machine = machine_with(&[0x43, 129, 0]);
    machine.registers[1] = 7;
    let fault = machine.execute_line().unwrap_err();
    assert_eq!(fault, Fault::DivisionByZero { at: 0 });
    // The failed step left the machine untouched.
    assert_eq!(machine.execution_pointer, 0);
    assert_eq!(machine.registers[1], 7);
}

#[test]
fn modulo_by_zero_is_a_reported_fault() {
    let mut machine = machine_with(&[0x44, 129, 0]);
    let fault = machine.execute_line().unwrap_err();
    assert_eq!(fault, Fault::DivisionByZero { at: 0 });
}

#[test]
fn mov_resolves_the_source_and_leaves_it_unchanged() {
    // mov R0, R1
    let mut machine = machine_with(&[0x61, 128, 129]);
    machine.registers[1] = 77;
    machine.execute_line().unwrap();
    assert_eq!(machine.registers[0], 77);
    assert_eq!(machine.registers[1], 77);
    assert_eq!(machine.execution_pointer, 3);
}

#[test]
fn mov_to_a_literal_writes_nothing() {
    let mut machine = machine_with(&[0x61, 5, 129]);
    machine.registers[1] = 77;
    machine.execute_line().unwrap();
    let mut expected = vec![0i32; 128];
    expected[1] = 77;
    assert_eq!(machine.registers, expected);
    assert_eq!(machine.execution_pointer, 3);
}

#[test]
fn jmp_sets_the_execution_pointer_exactly() {
    let mut machine = machine_with(&[0x62, 9, 0]);
    machine.execute_line().unwrap();
    assert_eq!(machine.execution_pointer, 9);
}

#[test]
fn jmpz_taken_lands_exactly_on_the_target() {
    // jmpz R0, 9 with R0 == 0
    let mut machine = machine_with(&[0x63, 128, 9]);
    machine.execute_line().unwrap();
    assert_eq!(machine.execution_pointer, 9);
}

#[test]
fn jmpz_not_taken_falls_through_three_bytes() {
    let mut machine = machine_with(&[0x63, 128, 9]);
    machine.registers[0] = 1;
    machine.execute_line().unwrap();
    assert_eq!(machine.execution_pointer, 3);
}

#[test]
fn halt_sets_the_flag_and_later_steps_are_no_ops() {
    let mut machine = machine_with(&[0x60, 0, 0]);
    machine.execute_line().unwrap();
    assert_eq!(machine.flags & HALT_FLAG, HALT_FLAG);
    let pointer_after_halt = machine.execution_pointer;
    let (name, ticks) = machine.execute_line().unwrap();
    assert_eq!(name, "no instruction");
    assert_eq!(ticks, 1);
    assert_eq!(machine.execution_pointer, pointer_after_halt);
    // The run loop makes no further steps either.
    let status = machine.run(DEFAULT_PROGRAM_REGION_END, 10_000).unwrap();
    assert_eq!(status, RunStatus::Finished);
    assert_eq!(machine.execution_pointer, pointer_after_halt);
}

#[test]
fn push_then_pop_yields_the_pushed_value() {
    // pushb N42; popb R1 (the pop opcode doubles as the push's unused
    // second operand byte, since both advance the pointer by two).
    let mut machine = machine_with(&[0x65, 42, 0x6C, 129, 0]);
    machine.execute_line().unwrap();
    assert_eq!(machine.memory[INITIAL_STACK_POINTER as usize], 42);
    assert_eq!(machine.stack_pointer, INITIAL_STACK_POINTER - 1);
    machine.execute_line().unwrap();
    assert_eq!(machine.registers[1], 42);
    // The pop returns the stack pointer to its pre-push value.
    assert_eq!(machine.stack_pointer, INITIAL_STACK_POINTER);
}

#[test]
fn pop_with_stack_pointer_at_the_top_is_a_fault() {
    let mut machine = machine_with(&[0x6C, 129, 0]);
    machine.stack_pointer = 4095;
    let fault = machine.execute_line().unwrap_err();
    assert_eq!(fault, Fault::OutOfBounds { address: 4096, at: 0 });
}

#[test]
fn push_with_full_stack_is_a_fault() {
    let mut machine = machine_with(&[0x65, 42, 0]);
    machine.stack_pointer = 0;
    let fault = machine.execute_line().unwrap_err();
    assert_eq!(fault, Fault::OutOfBounds { address: -1, at: 0 });
}

#[test]
fn push_with_stack_pointer_outside_memory_is_a_fault() {
    let mut machine = machine_with(&[0x65, 42, 0]);
    machine.stack_pointer = 5000;
    let fault = machine.execute_line().unwrap_err();
    assert_eq!(fault, Fault::OutOfBounds { address: 5000, at: 0 });
}

#[test]
fn sow_appends_low_bytes_in_call_order() {
    // sow 'H'; sow 'i'; halt
    let mut machine = machine_with(&[0x01, 72, 0x01, 105, 0x60, 0, 0]);
    run_to_end(&mut machine);
    assert_eq!(machine.standard_output, vec![b'H', b'i']);
}

#[test]
fn sow_keeps_only_the_low_byte() {
    let mut machine = machine_with(&[0x01, 128, 0]);
    machine.registers[0] = 0x1_41;  // low byte is 'A'
    machine.execute_line().unwrap();
    assert_eq!(machine.standard_output, vec![b'A']);
}

#[test]
fn soc_clears_the_output() {
    // sow 'X'; soc; halt
    let mut machine = machine_with(&[0x01, 88, 0x02, 0x60, 0, 0]);
    machine.execute_line().unwrap();
    assert_eq!(machine.standard_output, vec![b'X']);
    machine.execute_line().unwrap();
    assert!(machine.standard_output.is_empty());
}

#[test]
fn store_then_load_round_trips() {
    // stb N77 at address 100; ldb R2 from address 100
    let mut machine = machine_with(&[0x74, 77, 100, 0x64, 130, 100]);
    machine.execute_line().unwrap();
    assert_eq!(machine.memory[100], 77);
    machine.execute_line().unwrap();
    assert_eq!(machine.registers[2], 77);
}

#[test]
fn load_from_a_negative_address_is_a_fault() {
    let mut machine = machine_with(&[0x64, 128, 130]);
    machine.registers[2] = -5;
    let fault = machine.execute_line().unwrap_err();
    assert_eq!(fault, Fault::OutOfBounds { address: -5, at: 0 });
}

#[test]
fn store_past_the_end_of_memory_is_a_fault() {
    let mut machine = machine_with(&[0x74, 7, 130]);
    machine.registers[2] = 5000;
    let fault = machine.execute_line().unwrap_err();
    assert_eq!(fault, Fault::OutOfBounds { address: 5000, at: 0 });
}

#[test]
fn fetch_outside_memory_is_a_fault() {
    let mut machine = Machine::new();
    machine.execution_pointer = 4095;
    let fault = machine.execute_line().unwrap_err();
    assert_eq!(fault, Fault::OutOfBounds { address: 4097, at: 4095 });
}

#[test]
fn unknown_opcode_is_a_no_op_with_a_placeholder_name() {
    let mut machine = machine_with(&[0xFF, 1, 2]);
    let (name, ticks) = machine.execute_line().unwrap();
    assert_eq!(name, "nothing.");
    assert_eq!(ticks, 1 + 9);
    assert_eq!(machine.execution_pointer, 0);
    assert!(machine.registers.iter().all(|&r| r == 0));
}

#[test]
fn program_sums_five_and_three_and_halts_within_four_steps() {
    // mov R0, 5; mov R1, 3; add R0, R1; halt
    let mut machine = machine_with(&[0x61, 128, 5, 0x61, 129, 3, 0x40, 128, 129, 0x60, 0, 0]);
    for _ in 0..4 {
        machine.execute_line().unwrap();
    }
    assert_eq!(machine.registers[0], 8);
    assert_eq!(machine.flags & HALT_FLAG, HALT_FLAG);
}

#[test]
fn jmpz_skips_the_sow_when_the_register_is_zero() {
    // jmpz R0, 5; sow 'X'; halt
    let program = [0x63, 128, 5, 0x01, 88, 0x60, 0, 0];
    let mut machine = machine_with(&program);
    run_to_end(&mut machine);
    assert!(machine.standard_output.is_empty());

    let mut machine = machine_with(&program);
    machine.registers[0] = 1;
    run_to_end(&mut machine);
    assert_eq!(machine.standard_output, vec![b'X']);
}

#[test]
fn run_reports_the_first_fault() {
    let mut machine = machine_with(&[0x61, 128, 5, 0x43, 128, 0]);
    let fault = machine.run(DEFAULT_PROGRAM_REGION_END, 10_000).unwrap_err();
    assert_eq!(fault, Fault::DivisionByZero { at: 3 });
    assert_eq!(machine.registers[0], 5);
}

#[test]
fn run_stops_at_the_step_budget() {
    // jmp 0: an intentional endless loop.
    let mut machine = machine_with(&[0x62, 0, 0]);
    let status = machine.run(DEFAULT_PROGRAM_REGION_END, 10).unwrap();
    assert_eq!(status, RunStatus::StepLimit);
}

#[test]
fn run_stops_when_the_pointer_leaves_the_program_region() {
    let mut machine = machine_with(&[0x62, 120, 0]);
    let status = machine.run(DEFAULT_PROGRAM_REGION_END, 10_000).unwrap();
    assert_eq!(status, RunStatus::Finished);
    assert_eq!(machine.execution_pointer, 120);
}
