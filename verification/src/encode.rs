//! The instruction encoder: the canonical byte encoding of a supported
//! instruction, the exact inverse of the decoder.
//!
//! [`lemma_decode_encode`] is the round-trip law: decoding the encoding of
//! any encodable instruction yields that instruction back and consumes
//! exactly the encoding's length.
use vstd::prelude::*;

use crate::decode::{byte_at, disp_width, end_of, le_val, spec_consumed, spec_inst};
use crate::{EffectiveAdress, Instruction, Mode, Place, RegisterByte, RegisterWord};
use crate::exec::{hi_byte, lo_byte};

verus! {

/// The three-bit code of a byte register.
pub open spec fn byte_reg_code(r: RegisterByte) -> u8 {
    match r {
        RegisterByte::AL => 0,
        RegisterByte::CL => 1,
        RegisterByte::DL => 2,
        RegisterByte::BL => 3,
        RegisterByte::AH => 4,
        RegisterByte::CH => 5,
        RegisterByte::DH => 6,
        RegisterByte::BH => 7,
    }
}

/// The three-bit code of a word register.
pub open spec fn word_reg_code(r: RegisterWord) -> u8 {
    match r {
        RegisterWord::AX => 0,
        RegisterWord::CX => 1,
        RegisterWord::DX => 2,
        RegisterWord::BX => 3,
        RegisterWord::SP => 4,
        RegisterWord::BP => 5,
        RegisterWord::SI => 6,
        RegisterWord::DI => 7,
    }
}

/// The three-bit code of a register place (of either width).
pub open spec fn reg_code(p: Place) -> u8 {
    match p {
        Place::Byte(r) => byte_reg_code(r),
        Place::Word(r) => word_reg_code(r),
        Place::Adress(_) => 0,
    }
}

/// A 16-bit value as two little-endian bytes.
pub open spec fn le2(v: u16) -> Seq<u8> {
    seq![lo_byte(v), hi_byte(v)]
}

/// The displacement bytes a memory operand stores.
pub open spec fn ea_bytes(ea: EffectiveAdress) -> Seq<u8> {
    if ea.mode == Mode::EffectiveAdress {
        if ea.index == 6 {
            le2(ea.displacement)
        } else {
            Seq::<u8>::empty()
        }
    } else if ea.mode == Mode::EffectiveAdressByte {
        seq![lo_byte(ea.displacement)]
    } else {
        le2(ea.displacement)
    }
}

/// A mod-reg-r/m byte assembled from its three fields.
pub open spec fn modrm(mode: u8, reg: u8, rm: u8) -> u8
    recommends
        mode < 4,
        reg < 8,
        rm < 8,
{
    (mode * 64 + reg * 8 + rm) as u8
}

/// The mod-reg-r/m byte and displacement bytes of a register-or-memory
/// operand, with `reg_field` in the middle three bits.
pub open spec fn rm_bytes(reg_field: u8, p: Place) -> Seq<u8> {
    match p {
        Place::Adress(ea) => seq![modrm(ea.mode.code(), reg_field, ea.index)] + ea_bytes(ea),
        _ => seq![modrm(3, reg_field, reg_code(p))],
    }
}

/// An immediate as one byte or a little-endian pair.
pub open spec fn imm_bytes(word_mode: bool, v: u16) -> Seq<u8> {
    if word_mode {
        le2(v)
    } else {
        seq![lo_byte(v)]
    }
}

/// Whether both operands of a two-operand form make a supported pairing:
/// two registers of one width, or a register and a well-formed memory
/// operand of that register's width.
pub open spec fn operands_encodable(target: Place, source: Place, word_mode: bool) -> bool {
    ||| (target.is_register(word_mode) && source.is_register(word_mode))
    ||| (target.is_register(word_mode) && source is Adress && source.wf())
    ||| (target is Adress && target.wf() && source.is_register(word_mode))
}

/// The operand width a two-operand form carries, read off its register
/// operand.
pub open spec fn operands_word(target: Place, source: Place) -> bool {
    match target {
        Place::Byte(_) => false,
        Place::Word(_) => true,
        Place::Adress(_) => source is Word,
    }
}

/// Whether the canonical encoder can produce bytes for this instruction:
/// the instruction is well formed, its operands make a supported pairing,
/// and every immediate and marker fits the field that stores it.
pub open spec fn encodable(inst: Instruction) -> bool {
    match inst {
        Instruction::Arithmetic { op, target, source } => (op == 0 || op == 5 || op == 7)
            && operands_encodable(target, source, operands_word(target, source)),
        Instruction::ArithmeticImmediate { op, target, immediate } => (op == 0 || op == 5 || op
            == 7) && (target == Place::Byte(RegisterByte::AL) && immediate < 256 || target
            == Place::Word(RegisterWord::AX)),
        Instruction::ArithmeticImmediateToMemory { word_mode, op, target, immediate } => op < 8
            && target.wf() && (target is Adress || target.is_register(word_mode)) && (word_mode
            || immediate < 256),
        Instruction::Jump { marker, .. } => 0x70 <= marker <= 0x7F,
        Instruction::Loop { marker, .. } => 0xE0 <= marker <= 0xE3,
        Instruction::Mov { target, source } => operands_encodable(
            target,
            source,
            operands_word(target, source),
        ),
        Instruction::MovImmediate { target, immediate } => (target is Byte && immediate < 256)
            || target is Word,
        Instruction::MovImmediateToMemory { word_mode, target, immediate } => target is Adress
            && target.wf() && (word_mode || immediate < 256),
        Instruction::Unrecognized(b) => !recognized_byte(b),
    }
}

/// Whether a leading byte matches one of the decoder's known patterns.
pub open spec fn recognized_byte(b: u8) -> bool {
    ||| b <= 0x03
    ||| (0x28 <= b && b <= 0x2B)
    ||| (0x38 <= b && b <= 0x3B)
    ||| (0x04 <= b && b <= 0x05)
    ||| (0x2C <= b && b <= 0x2D)
    ||| (0x3C <= b && b <= 0x3D)
    ||| (0x70 <= b && b <= 0x7F)
    ||| (0xE0 <= b && b <= 0xE3)
    ||| (0x80 <= b && b <= 0x83)
    ||| (0x88 <= b && b <= 0x8C)
    ||| (0xB0 <= b && b <= 0xBF)
    ||| b == 0xC6
    ||| b == 0xC7
}

/// The opcode byte and operand bytes of a two-operand register/memory form:
/// the direction bit is set exactly when the source is the memory operand,
/// matching the canonical encoding an assembler picks.
pub open spec fn two_operand_bytes(base: u8, target: Place, source: Place) -> Seq<u8>
    recommends
        base + 3 < 256,
{
    let w: u8 = if operands_word(target, source) {
        1
    } else {
        0
    };
    match source {
        Place::Adress(_) => seq![(base + 2 + w) as u8] + rm_bytes(reg_code(target), source),
        _ => seq![(base + w) as u8] + rm_bytes(reg_code(source), target),
    }
}

/// The unsigned byte that stores a signed jump offset.
pub open spec fn offset_byte(o: i8) -> u8 {
    if o >= 0 {
        o as u8
    } else {
        (o + 256) as u8
    }
}

/// The canonical byte encoding of a supported instruction.
pub open spec fn spec_encode(inst: Instruction) -> Seq<u8> {
    match inst {
        Instruction::Arithmetic { op, target, source } => two_operand_bytes(
            (op * 8) as u8,
            target,
            source,
        ),
        Instruction::ArithmeticImmediate { op, target, immediate } => {
            let w: u8 = if target is Word {
                1
            } else {
                0
            };
            seq![(op * 8 + 4 + w) as u8] + imm_bytes(target is Word, immediate)
        },
        Instruction::ArithmeticImmediateToMemory { word_mode, op, target, immediate } => {
            let short = word_mode && immediate < 128;
            let opcode: u8 = if !word_mode {
                0x80
            } else if short {
                0x83
            } else {
                0x81
            };
            seq![opcode] + rm_bytes(op, target) + imm_bytes(word_mode && !short, immediate)
        },
        Instruction::Jump { marker, offset } => seq![marker, offset_byte(offset)],
        Instruction::Loop { marker, offset } => seq![marker, offset_byte(offset)],
        Instruction::Mov { target, source } => two_operand_bytes(0x88, target, source),
        Instruction::MovImmediate { target, immediate } => {
            let w: u8 = if target is Word {
                8
            } else {
                0
            };
            seq![(0xB0 + w + reg_code(target)) as u8] + imm_bytes(target is Word, immediate)
        },
        Instruction::MovImmediateToMemory { word_mode, target, immediate } => {
            let opcode: u8 = if word_mode {
                0xC7
            } else {
                0xC6
            };
            seq![opcode] + rm_bytes(0, target) + imm_bytes(word_mode, immediate)
        },
        Instruction::Unrecognized(b) => seq![b],
    }
}

/// The three-bit code of a register place.
fn place_reg_code(p: &Place) -> (r: u8)
    ensures
        r == reg_code(*p),
        r < 8,
{
    match p {
        Place::Byte(r) => match r {
            RegisterByte::AL => 0,
            RegisterByte::CL => 1,
            RegisterByte::DL => 2,
            RegisterByte::BL => 3,
            RegisterByte::AH => 4,
            RegisterByte::CH => 5,
            RegisterByte::DH => 6,
            RegisterByte::BH => 7,
        },
        Place::Word(r) => match r {
            RegisterWord::AX => 0,
            RegisterWord::CX => 1,
            RegisterWord::DX => 2,
            RegisterWord::BX => 3,
            RegisterWord::SP => 4,
            RegisterWord::BP => 5,
            RegisterWord::SI => 6,
            RegisterWord::DI => 7,
        },
        Place::Adress(_) => 0,
    }
}

/// Appends a word as two little-endian bytes.
fn push_le2(out: &mut Vec<u8>, v: u16)
    ensures
        final(out)@ == old(out)@ + le2(v),
{
    out.push((v % 256) as u8);
    out.push((v / 256) as u8);
    assert(out@ =~= old(out)@ + le2(v));
}

/// Appends the mod-reg-r/m byte and displacement bytes of a
/// register-or-memory operand.
fn push_rm(out: &mut Vec<u8>, reg_field: u8, p: &Place)
    requires
        reg_field < 8,
        p is Adress ==> p.wf(),
    ensures
        final(out)@ == old(out)@ + rm_bytes(reg_field, *p),
{
    match p {
        Place::Adress(ea) => {
            let mode: u8 = match ea.mode {
                Mode::EffectiveAdress => 0,
                Mode::EffectiveAdressByte => 1,
                Mode::EffectiveAdressWord => 2,
                Mode::RegisterToRegister => 3,
            };
            out.push(mode * 64 + reg_field * 8 + ea.index);
            match ea.mode {
                Mode::EffectiveAdress => {
                    if ea.index == 6 {
                        push_le2(out, ea.displacement);
                    }
                },
                Mode::EffectiveAdressByte => {
                    out.push((ea.displacement % 256) as u8);
                },
                Mode::EffectiveAdressWord => {
                    push_le2(out, ea.displacement);
                },
                Mode::RegisterToRegister => {},
            }
            assert(out@ =~= old(out)@ + rm_bytes(reg_field, *p));
        },
        _ => {
            let code = place_reg_code(p);
            out.push(3 * 64 + reg_field * 8 + code);
            assert(out@ =~= old(out)@ + rm_bytes(reg_field, *p));
        },
    }
}

/// Appends an immediate as one byte or a little-endian pair.
fn push_imm(out: &mut Vec<u8>, word_mode: bool, v: u16)
    ensures
        final(out)@ == old(out)@ + imm_bytes(word_mode, v),
{
    if word_mode {
        push_le2(out, v);
    } else {
        out.push((v % 256) as u8);
        assert(out@ =~= old(out)@ + imm_bytes(word_mode, v));
    }
}

/// Whether a place is a register of the given width.
fn is_register_of(p: &Place, word_mode: bool) -> (r: bool)
    ensures
        r == p.is_register(word_mode),
{
    match p {
        Place::Byte(_) => !word_mode,
        Place::Word(_) => word_mode,
        Place::Adress(_) => false,
    }
}

/// Encodes a two-operand register/memory form, or nothing when the operand
/// pairing is unsupported.
fn encode_two_operand(base: u8, target: &Place, source: &Place) -> (r: Option<Vec<u8>>)
    requires
        base + 3 < 256,
    ensures
        r is Some <==> operands_encodable(*target, *source, operands_word(*target, *source)),
        r is Some ==> r->0@ == two_operand_bytes(base, *target, *source),
{
    let word_mode = match target {
        Place::Byte(_) => false,
        Place::Word(_) => true,
        Place::Adress(_) => matches!(source, Place::Word(_)),
    };
    let ok = (is_register_of(target, word_mode) && is_register_of(source, word_mode)) || (
    is_register_of(target, word_mode) && matches!(source, Place::Adress(_)) && source.is_wf()) || (
    matches!(target, Place::Adress(_)) && target.is_wf() && is_register_of(source, word_mode));
    if !ok {
        return None;
    }
    let w: u8 = if word_mode {
        1
    } else {
        0
    };
    let mut out: Vec<u8> = Vec::new();
    if matches!(source, Place::Adress(_)) {
        out.push(base + 2 + w);
        push_rm(&mut out, place_reg_code(target), source);
    } else {
        out.push(base + w);
        push_rm(&mut out, place_reg_code(source), target);
    }
    assert(out@ =~= two_operand_bytes(base, *target, *source));
    Some(out)
}

/// Decides whether a leading byte matches one of the decoder's known
/// patterns.
fn is_recognized_byte(b: u8) -> (r: bool)
    ensures
        r == recognized_byte(b),
{
    b <= 0x03 || (0x28 <= b && b <= 0x2B) || (0x38 <= b && b <= 0x3B) || (0x04 <= b && b <= 0x05)
        || (0x2C <= b && b <= 0x2D) || (0x3C <= b && b <= 0x3D) || (0x70 <= b && b <= 0x7F) || (0xE0
        <= b && b <= 0xE3) || (0x80 <= b && b <= 0x83) || (0x88 <= b && b <= 0x8C) || (0xB0 <= b
        && b <= 0xBF) || b == 0xC6 || b == 0xC7
}

impl Instruction {
    /// Encodes this instruction into its canonical bytes, or nothing when
    /// no canonical encoding exists for it.
    pub fn try_encode(&self) -> (r: Option<Vec<u8>>)
        ensures
            r is Some <==> encodable(*self),
            r is Some ==> r->0@ == spec_encode(*self),
    {
        match self {
            Instruction::Arithmetic { op, target, source } => {
                if !(*op == 0 || *op == 5 || *op == 7) {
                    return None;
                }
                encode_two_operand(*op * 8, target, source)
            },
            Instruction::ArithmeticImmediate { op, target, immediate } => {
                if !(*op == 0 || *op == 5 || *op == 7) {
                    return None;
                }
                let word_mode = match target {
                    Place::Byte(r) => {
                        if !(matches!(r, RegisterByte::AL) && *immediate < 256) {
                            return None;
                        }
                        false
                    },
                    Place::Word(r) => {
                        if !matches!(r, RegisterWord::AX) {
                            return None;
                        }
                        true
                    },
                    Place::Adress(_) => {
                        return None;
                    },
                };
                let w: u8 = if word_mode {
                    1
                } else {
                    0
                };
                let mut out: Vec<u8> = Vec::new();
                out.push(*op * 8 + 4 + w);
                push_imm(&mut out, word_mode, *immediate);
                assert(out@ =~= spec_encode(*self));
                Some(out)
            },
            Instruction::ArithmeticImmediateToMemory { word_mode, op, target, immediate } => {
                let target_ok = matches!(target, Place::Adress(_)) || is_register_of(
                    target,
                    *word_mode,
                );
                if !(*op < 8 && target.is_wf() && target_ok && (*word_mode || *immediate < 256)) {
                    return None;
                }
                let short = *word_mode && *immediate < 128;
                let opcode: u8 = if !*word_mode {
                    0x80
                } else if short {
                    0x83
                } else {
                    0x81
                };
                let mut out: Vec<u8> = Vec::new();
                out.push(opcode);
                push_rm(&mut out, *op, target);
                push_imm(&mut out, *word_mode && !short, *immediate);
                assert(out@ =~= spec_encode(*self));
                Some(out)
            },
            Instruction::Jump { marker, offset } => {
                if !(0x70 <= *marker && *marker <= 0x7F) {
                    return None;
                }
                let mut out: Vec<u8> = Vec::new();
                out.push(*marker);
                out.push(to_offset_byte(*offset));
                assert(out@ =~= spec_encode(*self));
                Some(out)
            },
            Instruction::Loop { marker, offset } => {
                if !(0xE0 <= *marker && *marker <= 0xE3) {
                    return None;
                }
                let mut out: Vec<u8> = Vec::new();
                out.push(*marker);
                out.push(to_offset_byte(*offset));
                assert(out@ =~= spec_encode(*self));
                Some(out)
            },
            Instruction::Mov { target, source } => encode_two_operand(0x88, target, source),
            Instruction::MovImmediate { target, immediate } => {
                let word_mode = match target {
                    Place::Byte(_) => {
                        if !(*immediate < 256) {
                            return None;
                        }
                        false
                    },
                    Place::Word(_) => true,
                    Place::Adress(_) => {
                        return None;
                    },
                };
                let w: u8 = if word_mode {
                    8
                } else {
                    0
                };
                let mut out: Vec<u8> = Vec::new();
                out.push(0xB0 + w + place_reg_code(target));
                push_imm(&mut out, word_mode, *immediate);
                assert(out@ =~= spec_encode(*self));
                Some(out)
            },
            Instruction::MovImmediateToMemory { word_mode, target, immediate } => {
                if !(matches!(target, Place::Adress(_)) && target.is_wf() && (*word_mode
                    || *immediate < 256)) {
                    return None;
                }
                let opcode: u8 = if *word_mode {
                    0xC7
                } else {
                    0xC6
                };
                let mut out: Vec<u8> = Vec::new();
                out.push(opcode);
                push_rm(&mut out, 0, target);
                push_imm(&mut out, *word_mode, *immediate);
                assert(out@ =~= spec_encode(*self));
                Some(out)
            },
            Instruction::Unrecognized(b) => {
                if is_recognized_byte(*b) {
                    return None;
                }
                let mut out: Vec<u8> = Vec::new();
                out.push(*b);
                assert(out@ =~= spec_encode(*self));
                Some(out)
            },
        }
    }
}

/// The unsigned byte that stores a signed jump offset.
fn to_offset_byte(o: i8) -> (r: u8)
    ensures
        r == offset_byte(o),
{
    if o >= 0 {
        o as u8
    } else {
        ((o as i16) + 256) as u8
    }
}

/// The three fields of an assembled mod-reg-r/m byte read back exactly.
proof fn lemma_modrm_fields(mode: u8, reg: u8, rm: u8)
    requires
        mode < 4,
        reg < 8,
        rm < 8,
    ensures
        modrm(mode, reg, rm) / 64 == mode,
        (modrm(mode, reg, rm) / 8) % 8 == reg,
        modrm(mode, reg, rm) % 8 == rm,
{
    let v = mode * 64 + reg * 8 + rm;
    assert(v / 64 == mode && (v / 8) % 8 == reg && v % 8 == rm) by (nonlinear_arith)
        requires
            mode < 4,
            reg < 8,
            rm < 8,
            v == mode * 64 + reg * 8 + rm,
    ;
}

/// A register code reads back to the register place it came from.
proof fn lemma_reg_code_inverse(p: Place, word_mode: bool)
    requires
        p.is_register(word_mode),
    ensures
        crate::spec_register(word_mode, reg_code(p)) == p,
        reg_code(p) < 8,
{
}

/// The little-endian pair of a word reads back to that word.
proof fn lemma_le2_value(v: u16)
    ensures
        le_val(le2(v), 0, 2) == v,
        le2(v).len() == 2,
{
    reveal_with_fuel(le_val, 3);
}

/// Reading a field that lies entirely inside the first part of a
/// concatenation sees only that part.
proof fn lemma_le_val_concat_prefix(a: Seq<u8>, b: Seq<u8>, i: int, w: int)
    requires
        0 <= i,
        i + w <= a.len(),
    ensures
        le_val(a + b, i, w) == le_val(a, i, w),
    decreases w,
{
    if w > 0 {
        lemma_le_val_concat_prefix(a, b, i + 1, w - 1);
        assert(byte_at(a + b, i) == byte_at(a, i));
    }
}

/// An immediate field reads back to the immediate it stores.
proof fn lemma_imm_decode(word_mode: bool, v: u16)
    requires
        !word_mode ==> v < 256,
    ensures
        le_val(imm_bytes(word_mode, v), 0, if word_mode { 2int } else { 1int }) == v,
        imm_bytes(word_mode, v).len() == if word_mode { 2int } else { 1int },
{
    reveal_with_fuel(le_val, 3);
    if word_mode {
        lemma_le2_value(v);
    }
}

/// The encoded bytes of a register-or-memory operand decode back to that
/// operand: the mod-reg-r/m fields read back exactly, the displacement
/// bytes hold exactly the displacement, and the whole field is consumed.
proof fn lemma_rm_decode(reg_field: u8, p: Place, word_mode: bool)
    requires
        reg_field < 8,
        p is Adress ==> p.wf(),
        !(p is Adress) ==> p.is_register(word_mode),
    ensures
        ({
            let t = rm_bytes(reg_field, p);
            let (mode, reg, rm) = crate::decode::spec_mod_reg_rm(t);
            &&& mode < 4 && reg == reg_field && rm < 8
            &&& crate::decode::spec_resolve_rm(t.skip(1), mode, rm, word_mode) == p
            &&& disp_width(mode, rm) == t.len() - 1
            &&& end_of(t, 0, 1) == 1
            &&& end_of(t.skip(1), 0, disp_width(mode, rm)) == t.len() - 1
        }),
{
    reveal_with_fuel(le_val, 3);
    let t = rm_bytes(reg_field, p);
    match p {
        Place::Adress(ea) => {
            lemma_modrm_fields(ea.mode.code(), reg_field, ea.index);
            assert(t.skip(1) =~= ea_bytes(ea));
            let mode = ea.mode.code();
            let rm = ea.index;
            if ea.mode == Mode::EffectiveAdress {
                if ea.index == 6 {
                    lemma_le2_value(ea.displacement);
                } else {
                    assert(le_val(t.skip(1), 0, 0) == 0);
                }
            } else if ea.mode == Mode::EffectiveAdressByte {
                assert(le_val(t.skip(1), 0, 1) == ea.displacement);
            } else {
                lemma_le2_value(ea.displacement);
                assert(le_val(t.skip(1), 0, 2) == ea.displacement);
            }
        },
        _ => {
            lemma_modrm_fields(3, reg_field, reg_code(p));
            lemma_reg_code_inverse(p, word_mode);
            assert(t.skip(1) =~= Seq::<u8>::empty());
        },
    }
}

/// A two-operand register/memory form decodes back to its operands in the
/// right order and consumes all its bytes.
proof fn lemma_two_operand_decode(base: u8, target: Place, source: Place)
    requires
        base + 3 < 256,
        base % 4 == 0,
        operands_encodable(target, source, operands_word(target, source)),
    ensures
        ({
            let s = two_operand_bytes(base, target, source);
            let word_mode = operands_word(target, source);
            let b = byte_at(s, 0);
            &&& s.len() >= 2
            &&& base <= b <= base + 3
            &&& b % 2 == (if word_mode {
                1int
            } else {
                0int
            })
            &&& crate::decode::spec_target_source(s.skip(1), word_mode, (b / 2) % 2 == 1) == (
                s.len() - 1,
                target,
                source,
            )
        }),
{
    let s = two_operand_bytes(base, target, source);
    let word_mode = operands_word(target, source);
    let w: u8 = if word_mode {
        1
    } else {
        0
    };
    match source {
        Place::Adress(_) => {
            let t = rm_bytes(reg_code(target), source);
            lemma_reg_code_inverse(target, word_mode);
            lemma_rm_decode(reg_code(target), source, word_mode);
            assert(s.skip(1) =~= t);
            assert(byte_at(s, 0) == base + 2 + w);
            assert((base + 2 + w) % 2 == w && ((base + 2 + w) / 2) % 2 == 1) by (nonlinear_arith)
                requires
                    base % 4 == 0,
                    base + 3 < 256,
                    w < 2,
            ;
            assert(t.skip(1).len() == t.len() - 1);
        },
        _ => {
            let t = rm_bytes(reg_code(source), target);
            lemma_reg_code_inverse(source, word_mode);
            lemma_rm_decode(reg_code(source), target, word_mode);
            assert(s.skip(1) =~= t);
            assert(byte_at(s, 0) == base + w);
            assert((base + w) % 2 == w && ((base + w) / 2) % 2 == 0) by (nonlinear_arith)
                requires
                    base % 4 == 0,
                    base + 3 < 256,
                    w < 2,
            ;
            assert(t.skip(1).len() == t.len() - 1);
        },
    }
}

/// A two-operand family member (register/memory arithmetic or move)
/// decodes back from its encoding; `mk` distinguishes which variant the
/// family byte range builds.
proof fn lemma_de_arith(op: u8, target: Place, source: Place)
    requires
        op == 0 || op == 5 || op == 7,
        operands_encodable(target, source, operands_word(target, source)),
    ensures
        ({
            let inst = Instruction::Arithmetic { op, target, source };
            spec_inst(spec_encode(inst)) == inst && spec_consumed(spec_encode(inst))
                == spec_encode(inst).len()
        }),
{
    let inst = Instruction::Arithmetic { op, target, source };
    let s = spec_encode(inst);
    let base = (op * 8) as u8;
    lemma_two_operand_decode(base, target, source);
    let b = byte_at(s, 0);
    assert((b / 8) % 8 == op) by (nonlinear_arith)
        requires
            (op == 0 || op == 5 || op == 7),
            base == op * 8,
            base <= b <= base + 3,
    ;
    assert(b <= 0x03 || (0x28 <= b && b <= 0x2B) || (0x38 <= b && b <= 0x3B));
}

proof fn lemma_de_mov(target: Place, source: Place)
    requires
        operands_encodable(target, source, operands_word(target, source)),
    ensures
        ({
            let inst = Instruction::Mov { target, source };
            spec_inst(spec_encode(inst)) == inst && spec_consumed(spec_encode(inst))
                == spec_encode(inst).len()
        }),
{
    let inst = Instruction::Mov { target, source };
    let s = spec_encode(inst);
    lemma_two_operand_decode(0x88, target, source);
    let b = byte_at(s, 0);
    assert(0x88 <= b && b <= 0x8C);
}

proof fn lemma_de_arith_imm_acc(op: u8, target: Place, immediate: u16)
    requires
        op == 0 || op == 5 || op == 7,
        target == Place::Byte(RegisterByte::AL) && immediate < 256 || target == Place::Word(
            RegisterWord::AX,
        ),
    ensures
        ({
            let inst = Instruction::ArithmeticImmediate { op, target, immediate };
            spec_inst(spec_encode(inst)) == inst && spec_consumed(spec_encode(inst))
                == spec_encode(inst).len()
        }),
{
    let inst = Instruction::ArithmeticImmediate { op, target, immediate };
    let s = spec_encode(inst);
    let word_mode = target is Word;
    let b = byte_at(s, 0);
    lemma_imm_decode(word_mode, immediate);
    assert(s.skip(1) =~= imm_bytes(word_mode, immediate));
    assert((b / 8) % 8 == op && b % 2 == (if word_mode {
        1int
    } else {
        0int
    })) by (nonlinear_arith)
        requires
            (op == 0 || op == 5 || op == 7),
            b == op * 8 + 4 + (if word_mode {
                1int
            } else {
                0int
            }),
    ;
    assert((0x04 <= b && b <= 0x05) || (0x2C <= b && b <= 0x2D) || (0x3C <= b && b <= 0x3D));
}

proof fn lemma_de_arith_imm_rm(word_mode: bool, op: u8, target: Place, immediate: u16)
    requires
        op < 8,
        target.wf(),
        target is Adress || target.is_register(word_mode),
        word_mode || immediate < 256,
    ensures
        ({
            let inst = Instruction::ArithmeticImmediateToMemory { word_mode, op, target, immediate };
            spec_inst(spec_encode(inst)) == inst && spec_consumed(spec_encode(inst))
                == spec_encode(inst).len()
        }),
{
    let inst = Instruction::ArithmeticImmediateToMemory { word_mode, op, target, immediate };
    let s = spec_encode(inst);
    let short = word_mode && immediate < 128;
    let imm_word = word_mode && !short;
    let t = rm_bytes(op, target);
    lemma_rm_decode(op, target, word_mode);
    lemma_imm_decode(imm_word, immediate);
    assert(s.skip(1) =~= t + imm_bytes(imm_word, immediate));
    assert(s.skip(1).skip(1) =~= t.skip(1) + imm_bytes(imm_word, immediate));
    let dw = disp_width(
        crate::decode::spec_mod_reg_rm(t).0,
        crate::decode::spec_mod_reg_rm(t).2,
    );
    lemma_le_val_prefix_irrelevant(t.skip(1), imm_bytes(imm_word, immediate), dw);
    lemma_le_val_concat_prefix(t.skip(1), imm_bytes(imm_word, immediate), 0, dw);
    assert(s.skip(1).skip(1).skip(dw) =~= imm_bytes(imm_word, immediate));
    assert(byte_at(s.skip(1), 0) == byte_at(t, 0));
}

proof fn lemma_de_mov_imm_reg(target: Place, immediate: u16)
    requires
        (target is Byte && immediate < 256) || target is Word,
    ensures
        ({
            let inst = Instruction::MovImmediate { target, immediate };
            spec_inst(spec_encode(inst)) == inst && spec_consumed(spec_encode(inst))
                == spec_encode(inst).len()
        }),
{
    let inst = Instruction::MovImmediate { target, immediate };
    let s = spec_encode(inst);
    let word_mode = target is Word;
    let b = byte_at(s, 0);
    lemma_reg_code_inverse(target, word_mode);
    lemma_imm_decode(word_mode, immediate);
    assert(s.skip(1) =~= imm_bytes(word_mode, immediate));
    assert(0xB0 <= b && b <= 0xBF && (b / 8) % 2 == (if word_mode {
        1int
    } else {
        0int
    }) && b % 8 == reg_code(target)) by (nonlinear_arith)
        requires
            reg_code(target) < 8,
            b == 0xB0 + (if word_mode {
                8int
            } else {
                0int
            }) + reg_code(target),
    ;
}

proof fn lemma_de_mov_imm_rm(word_mode: bool, target: Place, immediate: u16)
    requires
        target is Adress,
        target.wf(),
        word_mode || immediate < 256,
    ensures
        ({
            let inst = Instruction::MovImmediateToMemory { word_mode, target, immediate };
            spec_inst(spec_encode(inst)) == inst && spec_consumed(spec_encode(inst))
                == spec_encode(inst).len()
        }),
{
    let inst = Instruction::MovImmediateToMemory { word_mode, target, immediate };
    let s = spec_encode(inst);
    let t = rm_bytes(0, target);
    lemma_rm_decode(0, target, word_mode);
    lemma_imm_decode(word_mode, immediate);
    assert(s.skip(1) =~= t + imm_bytes(word_mode, immediate));
    assert(s.skip(1).skip(1) =~= t.skip(1) + imm_bytes(word_mode, immediate));
    let dw = disp_width(
        crate::decode::spec_mod_reg_rm(t).0,
        crate::decode::spec_mod_reg_rm(t).2,
    );
    lemma_le_val_prefix_irrelevant(t.skip(1), imm_bytes(word_mode, immediate), dw);
    lemma_le_val_concat_prefix(t.skip(1), imm_bytes(word_mode, immediate), 0, dw);
    assert(s.skip(1).skip(1).skip(dw) =~= imm_bytes(word_mode, immediate));
    assert(byte_at(s.skip(1), 0) == byte_at(t, 0));
}

/// The round-trip law: decoding the canonical encoding of any encodable
/// instruction yields exactly that instruction and consumes exactly the
/// encoding's length.
pub proof fn lemma_decode_encode(inst: Instruction)
    requires
        encodable(inst),
    ensures
        spec_inst(spec_encode(inst)) == inst,
        spec_consumed(spec_encode(inst)) == spec_encode(inst).len(),
{
    match inst {
        Instruction::Arithmetic { op, target, source } => {
            lemma_de_arith(op, target, source);
        },
        Instruction::ArithmeticImmediate { op, target, immediate } => {
            lemma_de_arith_imm_acc(op, target, immediate);
        },
        Instruction::ArithmeticImmediateToMemory { word_mode, op, target, immediate } => {
            lemma_de_arith_imm_rm(word_mode, op, target, immediate);
        },
        Instruction::Jump { marker, offset } => {
            let s = spec_encode(inst);
            assert(s.skip(1) =~= seq![offset_byte(offset)]);
        },
        Instruction::Loop { marker, offset } => {
            let s = spec_encode(inst);
            assert(s.skip(1) =~= seq![offset_byte(offset)]);
        },
        Instruction::Mov { target, source } => {
            lemma_de_mov(target, source);
        },
        Instruction::MovImmediate { target, immediate } => {
            lemma_de_mov_imm_reg(target, immediate);
        },
        Instruction::MovImmediateToMemory { word_mode, target, immediate } => {
            lemma_de_mov_imm_rm(word_mode, target, immediate);
        },
        Instruction::Unrecognized(b) => {
            let s = spec_encode(inst);
            assert(s.len() == 1);
        },
    }
}

/// Reading a field that starts exactly where a prefix ends sees only the
/// suffix.
proof fn lemma_le_val_prefix_irrelevant(prefix: Seq<u8>, suffix: Seq<u8>, at: int)
    requires
        at == prefix.len(),
    ensures
        (prefix + suffix).skip(at) == suffix,
        end_of(prefix + suffix, 0, at) == at,
{
    assert((prefix + suffix).skip(at) =~= suffix);
}

} // verus!
