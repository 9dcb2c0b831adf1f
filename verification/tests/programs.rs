use cpu6502::{
    Fault, BRK_OPCODE, CPU, INX_OPCODE, LDA_OPCODE, NEGATIVE_FLAG, STEP_BOUND, TAX_OPCODE, ZERO_FLAG,
};

#[test]
fn test_0xa9_lda_immediate_load_data() {
    let mut cpu = CPU::new();
    let result = cpu.interpret(vec![LDA_OPCODE, 0x05, BRK_OPCODE]); // LDA #$05; BRK
    assert_eq!(result, Ok(()));
    assert_eq!(cpu.register_a, 0x05);
    assert!(cpu.status & ZERO_FLAG == 0x00); // Zero flag should be clear
    assert!(cpu.status & NEGATIVE_FLAG == 0); // Negative flag should be clear
}

#[test]
fn test_0xa9_lda_zero_flag() {
    let mut cpu = CPU::new();
    let result = cpu.interpret(vec![LDA_OPCODE, BRK_OPCODE, BRK_OPCODE]); // LDA #$00; BRK
    assert_eq!(result, Ok(()));
    assert!(cpu.status & ZERO_FLAG == ZERO_FLAG); // Zero flag should be set
}

#[test]
fn test_0xa9_lda_negative_flag() {
    let mut cpu = CPU::new();
    let result = cpu.interpret(vec![LDA_OPCODE, NEGATIVE_FLAG, BRK_OPCODE]); // LDA #$80; BRK
    assert_eq!(result, Ok(()));
    assert!(cpu.status & NEGATIVE_FLAG == NEGATIVE_FLAG); // Negative flag should be set
}

#[test]
fn test_0xaa_tax_transfer_a_to_x() {
    let mut cpu = CPU::new();
    cpu.register_a = 0x0A;
    let result = cpu.interpret(vec![TAX_OPCODE, BRK_OPCODE]); // TAX; BRK
    assert_eq!(result, Ok(()));
    assert_eq!(cpu.register_x, 0x0A);
}

#[test]
fn test_5_ops_working_together() {
    let mut cpu = CPU::new();
    let result = cpu.interpret(vec![LDA_OPCODE, 0xc0, TAX_OPCODE, INX_OPCODE, BRK_OPCODE]); // LDA #$C0; TAX; INX; BRK
    assert_eq!(result, Ok(()));
    assert_eq!(cpu.register_x, 0xc1);
}

#[test]
fn test_inx_overflow() {
    let mut cpu = CPU::new();
    cpu.register_x = 0xFF;
    let result = cpu.interpret(vec![INX_OPCODE, INX_OPCODE, BRK_OPCODE]); // INX; INX; BRK
    assert_eq!(result, Ok(()));
    assert_eq!(cpu.register_x, 1);
}

#[test]
fn test_opcode_values() {
    assert_eq!(LDA_OPCODE, 0xA9);
    assert_eq!(TAX_OPCODE, 0xAA);
    assert_eq!(INX_OPCODE, 0xE8);
    assert_eq!(BRK_OPCODE, 0x00);
    assert_eq!(ZERO_FLAG, 0b0000_0010);
    assert_eq!(NEGATIVE_FLAG, 0b1000_0000);
}

#[test]
fn test_lda_loads_every_byte() {
    for v in 0..=255u8 {
        let mut cpu = CPU::new();
        cpu.register_x = 0x33;
        cpu.status = 0b0111_1101;
        assert_eq!(cpu.interpret(vec![0xA9, v, 0x00]), Ok(()));
        assert_eq!(cpu.register_a, v);
        assert_eq!(cpu.register_x, 0x33);
        assert_eq!(cpu.status & 0x02 == 0x02, v == 0);
        assert_eq!(cpu.status & 0x80 == 0x80, v >= 0x80);
        assert_eq!(cpu.status & 0b0111_1101, 0b0111_1101);
        assert_eq!(cpu.program_counter, 3);
    }
}

#[test]
fn test_lda_clears_flags_of_an_earlier_result() {
    let mut cpu = CPU::new();
    assert_eq!(cpu.interpret(vec![0xA9, 0x00, 0x00]), Ok(()));
    assert_eq!(cpu.status, 0x02);
    assert_eq!(cpu.interpret(vec![0xA9, 0x80, 0x00]), Ok(()));
    assert_eq!(cpu.status, 0x80);
    assert_eq!(cpu.interpret(vec![0xA9, 0x05, 0x00]), Ok(()));
    assert_eq!(cpu.status, 0x00);
    assert_eq!(cpu.register_a, 0x05);
}

#[test]
fn test_tax_sets_flags_from_x() {
    let mut cpu = CPU::new();
    cpu.register_a = 0x00;
    cpu.register_x = 0x44;
    cpu.status = 0x80;
    assert_eq!(cpu.interpret(vec![0xAA, 0x00]), Ok(()));
    assert_eq!(cpu.register_x, 0x00);
    assert_eq!(cpu.register_a, 0x00);
    assert_eq!(cpu.status, 0x02);
    assert_eq!(cpu.program_counter, 2);

    cpu.register_a = 0xF0;
    assert_eq!(cpu.interpret(vec![0xAA, 0x00]), Ok(()));
    assert_eq!(cpu.register_x, 0xF0);
    assert_eq!(cpu.status, 0x80);
}

#[test]
fn test_inx_wraps_to_zero_and_sets_zero_flag() {
    let mut cpu = CPU::new();
    cpu.register_x = 0xFF;
    cpu.status = 0x80;
    assert_eq!(cpu.interpret(vec![0xE8, 0x00]), Ok(()));
    assert_eq!(cpu.register_x, 0x00);
    assert_eq!(cpu.status, 0x02);
}

#[test]
fn test_inx_into_negative_range() {
    let mut cpu = CPU::new();
    cpu.register_x = 0x7F;
    assert_eq!(cpu.interpret(vec![0xE8, 0x00]), Ok(()));
    assert_eq!(cpu.register_x, 0x80);
    assert_eq!(cpu.status, 0x80);
}

#[test]
fn test_chained_program_final_state() {
    let mut cpu = CPU::new();
    assert_eq!(cpu.interpret(vec![0xA9, 0xC0, 0xAA, 0xE8, 0x00]), Ok(()));
    assert_eq!(cpu.register_a, 0xC0);
    assert_eq!(cpu.register_x, 0xC1);
    assert_eq!(cpu.status, 0x80);
    assert_eq!(cpu.program_counter, 5);
}

#[test]
fn test_brk_stops_before_what_follows() {
    let mut cpu = CPU::new();
    cpu.register_a = 0x11;
    cpu.register_x = 0x22;
    cpu.status = 0x41;
    assert_eq!(cpu.interpret(vec![0x00, 0xFF, 0xA9, 0x07, 0xE8]), Ok(()));
    assert_eq!(cpu.register_a, 0x11);
    assert_eq!(cpu.register_x, 0x22);
    assert_eq!(cpu.status, 0x41);
    assert_eq!(cpu.program_counter, 1);
}

#[test]
fn test_halting_run_is_the_same_with_a_tail() {
    let mut short = CPU::new();
    let mut long = CPU::new();
    assert_eq!(short.interpret(vec![0xA9, 0x90, 0xAA, 0x00]), Ok(()));
    assert_eq!(long.interpret(vec![0xA9, 0x90, 0xAA, 0x00, 0x02, 0xE8, 0xE8]), Ok(()));
    assert_eq!(short, long);
}

#[test]
fn test_unknown_opcode_is_a_fault() {
    let mut cpu = CPU::new();
    let result = cpu.interpret(vec![0xA9, 0x07, 0xFF, 0xE8, 0x00]);
    assert_eq!(result, Err(Fault::UnknownOpcode { opcode: 0xFF }));
    assert_eq!(cpu.register_a, 0x07);
    assert_eq!(cpu.register_x, 0x00);
    assert_eq!(cpu.program_counter, 3);
}

#[test]
fn test_every_undefined_byte_is_an_unknown_opcode() {
    for opcode in 0..=255u8 {
        let mut cpu = CPU::new();
        let result = cpu.interpret(vec![opcode, 0x00, 0x00]);
        if opcode == 0xA9 || opcode == 0xAA || opcode == 0xE8 || opcode == 0x00 {
            assert_eq!(result, Ok(()));
        } else {
            assert_eq!(result, Err(Fault::UnknownOpcode { opcode }));
            assert_eq!(cpu.program_counter, 1);
            assert_eq!(cpu.register_x, 0);
        }
    }
}

#[test]
fn test_empty_program_is_out_of_bounds() {
    let mut cpu = CPU::new();
    cpu.program_counter = 9;
    assert_eq!(cpu.interpret(vec![]), Err(Fault::OutOfBounds { offset: 0 }));
    assert_eq!(cpu.program_counter, 0);
}

#[test]
fn test_running_off_the_end_is_out_of_bounds() {
    let mut cpu = CPU::new();
    assert_eq!(cpu.interpret(vec![0xE8, 0xE8]), Err(Fault::OutOfBounds { offset: 2 }));
    assert_eq!(cpu.register_x, 2);
    assert_eq!(cpu.program_counter, 2);
}

#[test]
fn test_missing_operand_is_out_of_bounds() {
    let mut cpu = CPU::new();
    cpu.register_a = 0x42;
    cpu.status = 0x80;
    assert_eq!(cpu.interpret(vec![0xE8, 0xA9]), Err(Fault::OutOfBounds { offset: 2 }));
    assert_eq!(cpu.register_a, 0x42);
    assert_eq!(cpu.register_x, 1);
    assert_eq!(cpu.status, 0x00);
    assert_eq!(cpu.program_counter, 2);
}

#[test]
fn test_state_is_kept_between_runs() {
    let mut cpu = CPU::new();
    assert_eq!(cpu.interpret(vec![0xA9, 0x80, 0xAA, 0x00]), Ok(()));
    assert_eq!(cpu.program_counter, 4);
    assert_eq!(cpu.interpret(vec![0xE8, 0x00]), Ok(()));
    assert_eq!(cpu.register_a, 0x80);
    assert_eq!(cpu.register_x, 0x81);
    assert_eq!(cpu.status, 0x80);
    assert_eq!(cpu.program_counter, 2);
}

#[test]
fn test_longest_program_that_must_stop() {
    let mut program = vec![0xE8u8; 0xFFFF];
    program[0xFFFE] = 0x00;
    let mut cpu = CPU::new();
    assert_eq!(cpu.interpret(program), Ok(()));
    assert_eq!(cpu.register_x, 0xFE);
    assert_eq!(cpu.program_counter, 0xFFFF);

    let mut cpu = CPU::new();
    assert_eq!(cpu.interpret(vec![0xE8u8; 0xFFFF]), Err(Fault::OutOfBounds { offset: 0xFFFF }));
    assert_eq!(cpu.register_x, 0xFF);
}

#[test]
fn test_program_counter_wraps_in_a_long_program() {
    let mut program = vec![0xE8u8; 0x1_0000];
    program[0] = 0xA9;
    program[1] = 0x00;
    program[0xFFFF] = 0xA9;
    let mut cpu = CPU::new();
    // The byte at offset 1 is first the operand of the LDA at offset 0. The
    // LDA at 0xFFFF takes its operand from offset 0, and the run goes on at
    // offset 1, where the same byte is now fetched as BRK.
    assert_eq!(cpu.interpret(program), Ok(()));
    assert_eq!(cpu.register_a, 0xA9);
    assert_eq!(cpu.register_x, 0xFD);
    assert_eq!(cpu.status, 0x80);
    assert_eq!(cpu.program_counter, 2);
}

#[test]
fn test_budget_is_counted_in_instructions() {
    let program = [0xA9u8, 0xC0, 0xAA, 0xE8, 0x00];
    let mut cpu = CPU::new();
    cpu.program_counter = 4;
    assert_eq!(cpu.interpret_within(&program, 0), None);
    assert_eq!(cpu, CPU { register_a: 0, register_x: 0, status: 0, program_counter: 0 });
    assert_eq!(cpu.interpret_within(&program, 1), None);
    assert_eq!(cpu, CPU { register_a: 0xC0, register_x: 0, status: 0x80, program_counter: 2 });
    assert_eq!(cpu.interpret_within(&program, 3), None);
    assert_eq!(cpu, CPU { register_a: 0xC0, register_x: 0xC1, status: 0x80, program_counter: 4 });
    assert_eq!(cpu.interpret_within(&program, 4), Some(Ok(())));
    assert_eq!(cpu, CPU { register_a: 0xC0, register_x: 0xC1, status: 0x80, program_counter: 5 });
}

#[test]
fn test_budgeted_run_agrees_with_the_plain_run() {
    let programs: Vec<Vec<u8>> = vec![
        vec![0xA9, 0x05, 0x00],
        vec![0xE8, 0xE8, 0x00],
        vec![0xA9, 0x07, 0xFF],
        vec![0xAA, 0xA9],
        vec![],
    ];
    for program in programs {
        let mut bounded = CPU::new();
        let mut plain = CPU::new();
        bounded.register_a = 0x9A;
        plain.register_a = 0x9A;
        let with_budget = bounded.interpret_within(&program, STEP_BOUND);
        let without = plain.interpret(program);
        assert_eq!(with_budget, Some(without));
        assert_eq!(bounded, plain);
    }
}

#[test]
fn test_budgeted_run_reports_faults() {
    let mut cpu = CPU::new();
    assert_eq!(
        cpu.interpret_within(&[0xE8, 0x02], 10),
        Some(Err(Fault::UnknownOpcode { opcode: 0x02 }))
    );
    assert_eq!(cpu.program_counter, 2);
    assert_eq!(cpu.interpret_within(&[0xE8], 10), Some(Err(Fault::OutOfBounds { offset: 1 })));
    assert_eq!(cpu.interpret_within(&[0xE8], 1), None);
}

#[test]
fn test_endless_program_runs_out_of_budget() {
    assert_eq!(STEP_BOUND, 65536);
    let program = vec![0xE8u8; 0x1_0000];
    let mut cpu = CPU::new();
    assert_eq!(cpu.interpret_within(&program, STEP_BOUND), None);
    assert_eq!(cpu.register_x, 0);
    assert_eq!(cpu.program_counter, 0);
    assert_eq!(cpu.interpret_within(&program, 3 * STEP_BOUND + 5), None);
    assert_eq!(cpu.register_x, 5);
    assert_eq!(cpu.program_counter, 5);
}

#[test]
fn test_longest_stopping_run_fits_the_step_bound() {
    let mut program = vec![0xE8u8; 0x1_0000];
    program[0xFFFF] = 0x00;
    let mut cpu = CPU::new();
    assert_eq!(cpu.interpret_within(&program, STEP_BOUND - 1), None);
    assert_eq!(cpu.register_x, 0xFF);
    assert_eq!(cpu.program_counter, 0xFFFF);
    let mut cpu = CPU::new();
    assert_eq!(cpu.interpret_within(&program, STEP_BOUND), Some(Ok(())));
    assert_eq!(cpu.register_x, 0xFF);
    assert_eq!(cpu.program_counter, 0);
}
