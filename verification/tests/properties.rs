//! Behavioural checks on the register file, the interpreter, the driver,
//! the renderer's exact output, and the error paths of both decoders.
use sim86::decode::single_instruction;
use sim86::decode::all_instructions;
use sim86::dis;
use sim86::exec::{run_program, step, ExecError, Registers, RunOutcome, State};
use sim86::{Instruction, Place, RegisterByte, RegisterWord};

/// A zeroed state with the given program loaded at offset zero.
fn loaded_state(program: &[u8]) -> State {
    let mut state = State::default();
    state.set_program(program);
    state
}

#[test]
fn byte_write_preserves_other_half() {
    let mut regs = Registers::default();
    regs.set_word(RegisterWord::AX, 0xABCD);
    regs.set_byte(RegisterByte::AL, 0x12);
    assert_eq!(regs.get_byte(RegisterByte::AH), 0xAB);
    assert_eq!(regs.get_byte(RegisterByte::AL), 0x12);
    assert_eq!(regs.get_word(RegisterWord::AX), 0xAB12);

    regs.set_byte(RegisterByte::AH, 0x7E);
    assert_eq!(regs.get_byte(RegisterByte::AL), 0x12);
    assert_eq!(regs.get_word(RegisterWord::AX), 0x7E12);
}

#[test]
fn sub_sets_zero_flag_on_equal_operands() {
    let mut state = State::default();
    state.registers.set_word(RegisterWord::AX, 5);
    state.registers.set_word(RegisterWord::BX, 5);
    let sub = Instruction::Arithmetic {
        op: 5,
        target: Place::Word(RegisterWord::AX),
        source: Place::Word(RegisterWord::BX),
    };
    sub.run(&mut state);
    assert_eq!(state.registers.get_word(RegisterWord::AX), 0);
    assert!(state.registers.flag_zero);
    assert!(!state.registers.flag_sign);
    assert_eq!(state.registers.flags_string(), "Z");
}

#[test]
fn sub_sets_sign_flag_on_wrapped_result() {
    let mut state = State::default();
    state.registers.set_word(RegisterWord::AX, 0);
    state.registers.set_word(RegisterWord::BX, 1);
    let sub = Instruction::Arithmetic {
        op: 5,
        target: Place::Word(RegisterWord::AX),
        source: Place::Word(RegisterWord::BX),
    };
    sub.run(&mut state);
    assert_eq!(state.registers.get_word(RegisterWord::AX), 65535);
    assert!(!state.registers.flag_zero);
    assert!(state.registers.flag_sign);
    assert_eq!(state.registers.flags_string(), "S");
}

#[test]
fn cmp_discards_result_but_sets_flags() {
    let mut state = State::default();
    state.registers.set_word(RegisterWord::CX, 3);
    state.registers.set_word(RegisterWord::DX, 7);
    let cmp = Instruction::Arithmetic {
        op: 7,
        target: Place::Word(RegisterWord::CX),
        source: Place::Word(RegisterWord::DX),
    };
    cmp.run(&mut state);
    assert_eq!(state.registers.get_word(RegisterWord::CX), 3);
    assert!(state.registers.flag_sign);
    assert!(!state.registers.flag_zero);
}

#[test]
fn conditional_jump_offset_lands_past_the_encoding() {
    // Byte 0 encodes jz +2; with the zero flag set the pointer must land
    // exactly 4 bytes past the jump's own first byte.
    let mut state = loaded_state(&[0x74, 0x02, 0x00, 0x00, 0x00, 0x00, 0x00, 0x00]);
    state.registers.flag_zero = true;
    let ran = step(&mut state).expect("jz runs");
    assert!(matches!(ran, Instruction::Jump { marker: 0x74, offset: 2 }));
    assert_eq!(state.instruction_pointer, 4);
}

#[test]
fn conditional_jump_falls_through_when_condition_fails() {
    let mut state = loaded_state(&[0x74, 0x02, 0x00, 0x00]);
    state.registers.flag_zero = false;
    step(&mut state).expect("jz runs");
    assert_eq!(state.instruction_pointer, 2);
}

#[test]
fn negated_jump_takes_on_clear_zero_flag() {
    // jnz +3 with the zero flag clear.
    let mut state = loaded_state(&[0x75, 0x03, 0x00, 0x00, 0x00, 0x00]);
    state.registers.flag_zero = false;
    step(&mut state).expect("jnz runs");
    assert_eq!(state.instruction_pointer, 5);
}

#[test]
fn end_to_end_add_leaves_seven_in_ax() {
    // mov ax, 5 ; mov cx, 2 ; add ax, cx
    let mut state = loaded_state(&[0xB8, 0x05, 0x00, 0xB9, 0x02, 0x00, 0x01, 0xC8]);
    let outcome = run_program(&mut state, 100);
    assert_eq!(outcome, RunOutcome::Halted(3));
    assert_eq!(state.registers.get_word(RegisterWord::AX), 7);
    assert_eq!(state.registers.get_word(RegisterWord::CX), 2);
    assert!(!state.registers.flag_zero);
    assert!(!state.registers.flag_sign);
    assert_eq!(state.registers.flags_string(), "");
}

#[test]
fn memory_words_are_stored_big_endian() {
    // mov word [1000], 347 ; mov dx, [1000]
    let mut state = loaded_state(&[
        0xC7, 0x06, 0xE8, 0x03, 0x5B, 0x01, // mov word [1000], 347
        0x8B, 0x16, 0xE8, 0x03, // mov dx, [1000]
    ]);
    let outcome = run_program(&mut state, 10);
    assert_eq!(outcome, RunOutcome::Halted(2));
    // High byte at the lower address.
    assert_eq!(state.memory[1000], 0x01);
    assert_eq!(state.memory[1001], 0x5B);
    assert_eq!(state.registers.get_word(RegisterWord::DX), 347);
}

#[test]
fn register_to_memory_and_back() {
    // mov bp, 16 ; mov si, 4 ; mov [bp + si + 10], bx round-trips through
    // memory into another register.
    let mut state = loaded_state(&[
        0xBD, 0x10, 0x00, // mov bp, 16
        0xBE, 0x04, 0x00, // mov si, 4
        0xBB, 0x2A, 0x00, // mov bx, 42
        0x89, 0x5A, 0x0A, // mov [bp + si + 10], bx
        0x8B, 0x4A, 0x0A, // mov cx, [bp + si + 10]
    ]);
    let outcome = run_program(&mut state, 10);
    assert_eq!(outcome, RunOutcome::Halted(5));
    assert_eq!(state.memory[30], 0x00);
    assert_eq!(state.memory[31], 42);
    assert_eq!(state.registers.get_word(RegisterWord::CX), 42);
}

#[test]
fn word_store_wraps_at_the_top_of_memory() {
    let mut state = State::default();
    state.write_word_at(65535, 0xBEEF);
    assert_eq!(state.memory[65535], 0xBE);
    assert_eq!(state.memory[0], 0xEF);
    assert_eq!(state.read_word_at(65535), 0xBEEF);
}

#[test]
fn immediate_arithmetic_to_register_executes() {
    // add si, 2 with si = 5.
    let mut state = loaded_state(&[0x83, 0xC6, 0x02]);
    state.registers.set_word(RegisterWord::SI, 5);
    let outcome = run_program(&mut state, 10);
    assert_eq!(outcome, RunOutcome::Halted(1));
    assert_eq!(state.registers.get_word(RegisterWord::SI), 7);
}

#[test]
fn arithmetic_from_memory_source_executes() {
    // mov word [52], 11 (bp+si form needs registers); then add bx, [52].
    let mut state = loaded_state(&[
        0xC7, 0x06, 0x34, 0x00, 0x0B, 0x00, // mov word [52], 11
        0x03, 0x1E, 0x34, 0x00, // add bx, [52]
    ]);
    state.registers.set_word(RegisterWord::BX, 31);
    let outcome = run_program(&mut state, 10);
    assert_eq!(outcome, RunOutcome::Halted(2));
    assert_eq!(state.registers.get_word(RegisterWord::BX), 42);
}

#[test]
fn unsupported_operation_stops_the_run() {
    // A loop instruction has no execution semantics.
    let mut state = loaded_state(&[0xE2, 0xFE]);
    let outcome = run_program(&mut state, 10);
    assert_eq!(outcome, RunOutcome::Unsupported(0));
    assert_eq!(state.instruction_pointer, 2);

    let mut again = loaded_state(&[0xE2, 0xFE]);
    assert_eq!(step(&mut again), Err(ExecError::UnimplementedOperation));
}

#[test]
fn step_budget_stops_an_endless_loop() {
    // jz -2 with the zero flag set jumps back to itself forever.
    let mut state = loaded_state(&[0x74, 0xFE]);
    state.registers.flag_zero = true;
    let outcome = run_program(&mut state, 5);
    assert_eq!(outcome, RunOutcome::StepLimit);
    assert_eq!(state.instruction_pointer, 0);
}

#[test]
fn truncated_immediate_reads_missing_bytes_as_zero() {
    let mut rest: &[u8] = &[0xB8, 0x05];
    let (consumed, instruction) = single_instruction(&mut rest);
    assert_eq!(consumed, 2);
    assert_eq!(
        instruction,
        Instruction::MovImmediate { target: Place::Word(RegisterWord::AX), immediate: 5 }
    );
    assert!(rest.is_empty());
}

#[test]
fn consumption_matches_the_encoding_length() {
    // Register-to-register move: exactly 2 bytes.
    let mut two: &[u8] = &[0x89, 0xD9, 0xFF];
    assert_eq!(single_instruction(&mut two).0, 2);
    // Word-displacement memory move: exactly 4 bytes.
    let mut four: &[u8] = &[0x8B, 0x81, 0xDB, 0x00, 0xFF];
    assert_eq!(single_instruction(&mut four).0, 4);
    // Immediate word arithmetic with a sign-carrying byte: exactly 3.
    let mut three: &[u8] = &[0x83, 0xC6, 0x02];
    assert_eq!(single_instruction(&mut three).0, 3);
    // An unrecognized byte: exactly 1.
    let mut one: &[u8] = &[0xF4, 0x90];
    assert_eq!(single_instruction(&mut one).0, 1);
}

#[test]
fn unrecognized_bytes_render_distinctly_and_continue() {
    let text = all_instructions(&[0xF4, 0x89, 0xD9]);
    assert_eq!(
        text,
        "bits 16\n\u{1B}[1m\u{1B}[31mf4\u{1B}[0m unrecognized\nmov CX, BX\n"
    );
    // A small unrecognized byte is padded to two columns.
    let small = all_instructions(&[0x0E]);
    assert_eq!(small, "bits 16\n\u{1B}[1m\u{1B}[31m e\u{1B}[0m unrecognized\n");
}

#[test]
fn jump_and_loop_render_relative_to_next_instruction() {
    assert_eq!(all_instructions(&[0x75, 0xFC]), "bits 16\njnz $+2-4\n");
    assert_eq!(all_instructions(&[0x74, 0x02]), "bits 16\njz $+2+2\n");
    assert_eq!(all_instructions(&[0xE2, 0xFE]), "bits 16\nloop $+2-2\n");
    assert_eq!(all_instructions(&[0xE3, 0x7F]), "bits 16\njcxz $+2+127\n");
    assert_eq!(all_instructions(&[0x70, 0x80]), "bits 16\njo $+2-128\n");
}

#[test]
fn immediate_to_accumulator_renders_and_reencodes() {
    let mut rest: &[u8] = &[0x2D, 0xE8, 0x03];
    let (consumed, instruction) = single_instruction(&mut rest);
    assert_eq!(consumed, 3);
    assert_eq!(instruction.render(), "sub AX, 1000");
    assert_eq!(instruction.try_encode().unwrap(), vec![0x2D, 0xE8, 0x03]);
}

#[test]
fn unencodable_instructions_are_refused() {
    assert_eq!(Instruction::Unrecognized(0x89).try_encode(), None);
    let or_form = Instruction::Arithmetic {
        op: 1,
        target: Place::Word(RegisterWord::AX),
        source: Place::Word(RegisterWord::BX),
    };
    assert_eq!(or_form.try_encode(), None);
    let mixed_widths = Instruction::Mov {
        target: Place::Byte(RegisterByte::AL),
        source: Place::Word(RegisterWord::BX),
    };
    assert_eq!(mixed_widths.try_encode(), None);
}

#[test]
fn program_load_caps_at_the_address_space() {
    let image = vec![0x90u8; 70000];
    let mut state = State::default();
    state.set_program(&image);
    assert_eq!(state.program_end, 65536);
    assert_eq!(state.memory.len(), 65536);
}

#[test]
fn bit_reader_reads_most_significant_first() {
    let bytes: [u8; 2] = [0xAB, 0xCD];
    let (rest, nibble) = dis::take_nibble((&bytes, 0)).unwrap();
    assert_eq!(nibble, 0xA);
    assert_eq!(rest.1, 4);
    let (rest2, two) = dis::take_2bits(rest).unwrap();
    assert_eq!(two, 0b10);
    assert_eq!(rest2.1, 6);
    let (rest3, three) = dis::take_3bits(rest2).unwrap();
    // The last two bits of 0xAB and the first bit of 0xCD.
    assert_eq!(three, 0b111);
    assert_eq!(rest3.1, 1);
}

#[test]
fn bit_parser_reports_unsupported_and_incomplete_forms() {
    // mov ax, [2555] assembles with an accumulator opcode this parser
    // does not support.
    assert_eq!(
        dis::disassemble(&[0xA1, 0xFB, 0x09]),
        Err(dis::ParseError::Unsupported)
    );
    // A word immediate cut short.
    assert_eq!(dis::disassemble(&[0xB9, 0x0C]), Err(dis::ParseError::Incomplete));
    // An immediate-to-memory move is recognized but unsupported.
    assert_eq!(dis::disassemble(&[0xC6, 0x03, 0x07]), Err(dis::ParseError::Unsupported));
}

#[test]
fn bit_parser_decodes_register_moves() {
    let bytes = [0x89, 0xD9]; // mov cx, bx
    let ((rest, offset_after), instruction) = dis::parse_instruction((&bytes, 0)).unwrap();
    assert!(rest.is_empty());
    assert_eq!(offset_after, 0);
    assert_eq!(instruction.operation, dis::Operation::MovRegRM);
    assert_eq!(instruction.destination, dis::Location::Reg(dis::Register::Cx));
    assert_eq!(
        instruction.source,
        dis::Source::Loc(dis::Location::Reg(dis::Register::Bx))
    );
    assert_eq!(instruction.text(), "mov cx, bx");
}

#[test]
fn fresh_state_is_zeroed() {
    let state = State::default();
    assert_eq!(state.registers.get_word(RegisterWord::AX), 0);
    assert_eq!(state.registers.get_word(RegisterWord::DI), 0);
    assert!(!state.registers.flag_zero);
    assert!(!state.registers.flag_sign);
    assert_eq!(state.instruction_pointer, 0);
    assert_eq!(state.program_end, 0);
    assert_eq!(state.memory.len(), 65536);
    assert!(state.memory.iter().all(|b| *b == 0));
}
