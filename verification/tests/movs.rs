//! Move-form checks, one per supported addressing shape: the hand-assembled
//! bytes of each snippet decode to the expected text and re-encode to the
//! same bytes; where the bit-level disassembler supports the form, its
//! output is checked too.
use sim86::decode::{all_instructions, single_instruction};
use sim86::dis;
use sim86::{EffectiveAdress, Instruction, Mode, Place, RegisterWord};

/// Decodes, re-encodes and compares a hand-assembled snippet, and checks
/// its rendered disassembly.
fn validate_movs(bytes: &[u8], expected: &str) {
    assert_eq!(all_instructions(bytes), expected);
    let mut rebuilt: Vec<u8> = Vec::new();
    let mut rest = bytes;
    while !rest.is_empty() {
        let (_, instruction) = single_instruction(&mut rest);
        rebuilt.extend_from_slice(&instruction.try_encode().expect("mov re-encodes"));
    }
    assert_eq!(rebuilt, bytes);
}

#[test]
fn byte_immediate_to_register() {
    // mov cl, 12 ; mov ch, -12
    let bytes = [0xB1, 0x0C, 0xB5, 0xF4];
    validate_movs(&bytes, "bits 16\nmov CL, 12\nmov CH, 244\n");
    assert_eq!(
        dis::disassemble(&bytes).unwrap(),
        "bits 16\n\nmov cl, 12\nmov ch, 244\n"
    );
}

#[test]
fn word_immediate_to_register() {
    // mov cx, 12 ; mov cx, -12
    let bytes = [0xB9, 0x0C, 0x00, 0xB9, 0xF4, 0xFF];
    validate_movs(&bytes, "bits 16\nmov CX, 12\nmov CX, 65524\n");
    assert_eq!(
        dis::disassemble(&bytes).unwrap(),
        "bits 16\n\nmov cx, 12\nmov cx, 65524\n"
    );
}

#[test]
fn source_address_calculation() {
    // mov al, [bx + si] ; mov bx, [bp + di] ; mov dx, [bp]
    let bytes = [0x8A, 0x00, 0x8B, 0x1B, 0x8B, 0x56, 0x00];
    validate_movs(
        &bytes,
        "bits 16\nmov AL, [BX + SI + 0]\nmov BX, [BP + DI + 0]\nmov DX, [BP + 0]\n",
    );
    assert_eq!(
        dis::disassemble(&bytes).unwrap(),
        "bits 16\n\nmov al, [bx + si]\nmov bx, [bp + di]\nmov dx, [bp + 0]\n"
    );
}

#[test]
fn source_address_calculation_byte_offset() {
    // mov al, [bx + si + 4]
    let bytes = [0x8A, 0x40, 0x04];
    validate_movs(&bytes, "bits 16\nmov AL, [BX + SI + 4]\n");
    assert_eq!(
        dis::disassemble(&bytes).unwrap(),
        "bits 16\n\nmov al, [bx + si + 4]\n"
    );
}

#[test]
fn source_address_calculation_word_offset() {
    // mov al, [bx + si + 4999]
    let bytes = [0x8A, 0x80, 0x87, 0x13];
    validate_movs(&bytes, "bits 16\nmov AL, [BX + SI + 4999]\n");
    assert_eq!(
        dis::disassemble(&bytes).unwrap(),
        "bits 16\n\nmov al, [bx + si + 4999]\n"
    );
}

#[test]
fn signed_displacements() {
    // mov ax, [bx + di - 37] ; mov [si - 300], cx ; mov dx, [bx - 32]
    // Displacements are stored two's complement; the renderer shows the
    // stored unsigned value.
    let bytes = [0x8B, 0x41, 0xDB, 0x89, 0x8C, 0xD4, 0xFE, 0x8B, 0x57, 0xE0];
    validate_movs(
        &bytes,
        "bits 16\nmov AX, [BX + DI + 219]\nmov [SI + 65236], CX\nmov DX, [BX + 224]\n",
    );
}

#[test]
fn explicit_sizes() {
    // mov [bp + di], byte 7 ; mov [di + 901], word 347
    let bytes = [0xC6, 0x03, 0x07, 0xC7, 0x85, 0x85, 0x03, 0x5B, 0x01];
    validate_movs(
        &bytes,
        "bits 16\nmov [BP + DI + 0], byte 7\nmov [DI + 901], word 347\n",
    );
}

#[test]
fn direct_address() {
    // mov bp, [5] ; mov bx, [3458]
    let bytes = [0x8B, 0x2E, 0x05, 0x00, 0x8B, 0x1E, 0x82, 0x0D];
    validate_movs(&bytes, "bits 16\nmov BP, [5]\nmov BX, [3458]\n");

    // The decoded operand is a direct address, not "BP with no offset".
    let mut rest: &[u8] = &bytes;
    let (consumed, instruction) = single_instruction(&mut rest);
    assert_eq!(consumed, 4);
    assert_eq!(
        instruction,
        Instruction::Mov {
            target: Place::Word(RegisterWord::BP),
            source: Place::Adress(EffectiveAdress {
                index: 6,
                mode: Mode::EffectiveAdress,
                displacement: 5,
            }),
        }
    );
}

#[test]
fn memory_to_accumulator() {
    // mov ax, [2555] ; mov ax, [16], in the general register/memory form
    let bytes = [0x8B, 0x06, 0xFB, 0x09, 0x8B, 0x06, 0x10, 0x00];
    validate_movs(&bytes, "bits 16\nmov AX, [2555]\nmov AX, [16]\n");
}

#[test]
fn accumulator_to_memeory() {
    // mov [2554], ax ; mov [15], ax, in the general register/memory form
    let bytes = [0x89, 0x06, 0xFA, 0x09, 0x89, 0x06, 0x0F, 0x00];
    validate_movs(&bytes, "bits 16\nmov [2554], AX\nmov [15], AX\n");
}
