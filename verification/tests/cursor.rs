//! Checks on the byte cursor and the small lookup functions.
use sim86::decode::advance_by;
use sim86::{Instruction, Mode, Place, RegisterByte, RegisterWord};

#[test]
fn advance_by_folds_little_endian() {
    let bytes: [u8; 3] = [0x34, 0x12, 0xFF];
    let mut rest: &[u8] = &bytes;
    assert_eq!(advance_by(&mut rest, 2), 0x1234);
    assert_eq!(rest, &[0xFF]);
    assert_eq!(advance_by(&mut rest, 1), 0xFF);
    assert!(rest.is_empty());
}

#[test]
fn advance_by_reads_missing_bytes_as_zero() {
    let bytes: [u8; 1] = [0x7B];
    let mut rest: &[u8] = &bytes;
    // A two-byte field at the end of the stream: the missing high byte
    // reads as zero and only the present byte is consumed.
    assert_eq!(advance_by(&mut rest, 2), 0x7B);
    assert!(rest.is_empty());
    assert_eq!(advance_by(&mut rest, 2), 0);
    assert_eq!(advance_by(&mut rest, 0), 0);
}

#[test]
fn register_codes_map_in_encoding_order() {
    assert_eq!(RegisterByte::from_octal(0), Some(RegisterByte::AL));
    assert_eq!(RegisterByte::from_octal(4), Some(RegisterByte::AH));
    assert_eq!(RegisterByte::from_octal(7), Some(RegisterByte::BH));
    assert_eq!(RegisterByte::from_octal(8), None);
    assert_eq!(RegisterWord::from_octal(0), Some(RegisterWord::AX));
    assert_eq!(RegisterWord::from_octal(6), Some(RegisterWord::SI));
    assert_eq!(RegisterWord::from_octal(9), None);
    assert_eq!(Place::register(true, 5), Place::Word(RegisterWord::BP));
    assert_eq!(Place::register(false, 5), Place::Byte(RegisterByte::CH));
}

#[test]
fn mode_codes_round_trip() {
    assert_eq!(Mode::from_code(0), Mode::EffectiveAdress);
    assert_eq!(Mode::from_code(1), Mode::EffectiveAdressByte);
    assert_eq!(Mode::from_code(2), Mode::EffectiveAdressWord);
    assert_eq!(Mode::from_code(3), Mode::RegisterToRegister);
}

#[test]
fn resolve_rm_consumes_the_displacement() {
    // Addressing-mode class 1: one displacement byte.
    let bytes: [u8; 2] = [0x2A, 0xFF];
    let mut rest: &[u8] = &bytes;
    let place = Place::resolve_rm(2, Mode::EffectiveAdressByte, true, &mut rest);
    assert_eq!(rest, &[0xFF]);
    match place {
        Place::Adress(ea) => {
            assert_eq!(ea.index, 2);
            assert_eq!(ea.mode, Mode::EffectiveAdressByte);
            assert_eq!(ea.displacement, 0x2A);
        }
        _ => panic!("expected a memory operand"),
    }
    // Register operands consume nothing.
    let mut untouched: &[u8] = &bytes;
    let reg = Place::resolve_rm(3, Mode::RegisterToRegister, false, &mut untouched);
    assert_eq!(untouched, &bytes);
    assert_eq!(reg, Place::Byte(RegisterByte::BL));
}

#[test]
fn target_reports_the_written_place() {
    let mov = Instruction::Mov {
        target: Place::Word(RegisterWord::DX),
        source: Place::Word(RegisterWord::SP),
    };
    assert_eq!(mov.target(), Some(Place::Word(RegisterWord::DX)));
    assert_eq!(Instruction::Jump { marker: 0x74, offset: 5 }.target(), None);
    assert_eq!(Instruction::Unrecognized(0xF4).target(), None);
}
