//! The instruction decoder: turns raw bytes into [`Instruction`] values.
//!
//! The byte stream is modelled by its view `Seq<u8>` together with a read
//! position.  Reading past the end of the stream yields zero bytes and
//! consumes nothing, so that a truncated trailing instruction still decodes
//! to a value instead of failing.
use vstd::prelude::*;

use crate::{
    spec_register, EffectiveAdress, Instruction, Mode, Place, RegisterByte, RegisterWord,
};

verus! {

/// The byte at position `i`, or zero when `i` lies outside the stream.
pub open spec fn byte_at(s: Seq<u8>, i: int) -> u8 {
    if 0 <= i < s.len() {
        s[i]
    } else {
        0u8
    }
}

/// The little-endian value of the `w` bytes starting at position `i`:
/// the first byte is least significant, bytes outside the stream read as
/// zero.
pub open spec fn le_val(s: Seq<u8>, i: int, w: int) -> int
    decreases w,
{
    if w <= 0 {
        0
    } else {
        byte_at(s, i) + 256 * le_val(s, i + 1, w - 1)
    }
}

/// The position after reading a field of `w` bytes at position `i`, clamped
/// to the end of the stream.
pub open spec fn end_of(s: Seq<u8>, i: int, w: int) -> int {
    if i + w <= s.len() {
        i + w
    } else if i <= s.len() {
        s.len() as int
    } else {
        i
    }
}

/// `pow256(w)` bounds every `w`-byte little-endian value from above.
pub open spec fn pow256(w: int) -> int
    decreases w,
{
    if w <= 0 {
        1
    } else {
        256 * pow256(w - 1)
    }
}

pub proof fn lemma_pow256_pos(w: int)
    ensures
        pow256(w) >= 1,
    decreases w,
{
    if w > 0 {
        lemma_pow256_pos(w - 1);
    }
}

pub proof fn lemma_le_val_bound(s: Seq<u8>, i: int, w: int)
    ensures
        0 <= le_val(s, i, w) < pow256(w),
    decreases w,
{
    if w <= 0 {
    } else {
        lemma_le_val_bound(s, i + 1, w - 1);
    }
}

/// Bytes at or past the end of the stream all read as zero.
pub proof fn lemma_le_val_zero_past_end(s: Seq<u8>, i: int, w: int)
    requires
        i >= s.len(),
    ensures
        le_val(s, i, w) == 0,
    decreases w,
{
    if w > 0 {
        lemma_le_val_zero_past_end(s, i + 1, w - 1);
    }
}

/// Reads one byte and advances past it; at the end of the stream it yields
/// zero and stays put.
fn advance(memory: &mut &[u8]) -> (b: u8)
    ensures
        b == byte_at(old(memory)@, 0),
        final(memory)@ == old(memory)@.skip(end_of(old(memory)@, 0, 1)),
{
    if memory.is_empty() {
        assert(old(memory)@ =~= old(memory)@.skip(0));
        return 0;
    }
    let byte = memory[0];
    *memory = vstd::slice::slice_subrange(*memory, 1, memory.len());
    assert(memory@ =~= old(memory)@.skip(1));
    byte
}

/// Reads a `width`-byte little-endian field and advances past it.  Bytes
/// past the end of the stream read as zero; only the bytes actually present
/// are consumed.
pub fn advance_by(memory: &mut &[u8], width: usize) -> (value: usize)
    requires
        width <= 4,
    ensures
        value == le_val(old(memory)@, 0, width as int),
        final(memory)@ == old(memory)@.skip(end_of(old(memory)@, 0, width as int)),
{
    let ghost s = memory@;
    let avail: usize = if width <= memory.len() {
        width
    } else {
        memory.len()
    };
    proof {
        if avail < width {
            lemma_le_val_zero_past_end(s, avail as int, (width - avail) as int);
        }
        lemma_pow256_pos((width - avail) as int);
    }
    let mut k: usize = avail;
    let mut acc: usize = 0;
    while k > 0
        invariant
            k <= avail <= width <= 4,
            avail <= s.len(),
            s == memory@,
            acc == le_val(s, k as int, (width - k) as int),
            acc < pow256((width - k) as int),
        decreases k,
    {
        proof {
            lemma_pow256_values();
            lemma_pow256_monotone((width - k) as int, 3);
            lemma_le_val_bound(s, k - 1, (width - k + 1) as int);
        }
        k = k - 1;
        acc = acc * 256 + (memory[k] as usize);
    }
    *memory = vstd::slice::slice_subrange(*memory, avail, memory.len());
    proof {
        lemma_pow256_monotone(width as int, 4);
        assert(memory@ =~= s.skip(end_of(s, 0, width as int)));
    }
    acc
}

/// How many displacement bytes a mod-reg-r/m operand stores: none for the
/// no-displacement class (except the direct-address special case, which
/// stores a full word) and for register operands, otherwise the class's own
/// width.
pub open spec fn disp_width(mode: u8, rm: u8) -> int {
    if mode == 0 {
        if rm == 6 {
            2
        } else {
            0
        }
    } else if mode == 3 {
        0
    } else {
        mode as int
    }
}

/// The memory operand a mod-reg-r/m byte with fields `mode` and `rm`
/// selects, with its displacement read from the start of `s`.
pub open spec fn spec_address(s: Seq<u8>, mode: u8, rm: u8) -> Place {
    Place::Adress(
        EffectiveAdress {
            index: rm,
            mode: Mode::spec_from_code(mode),
            displacement: le_val(s, 0, disp_width(mode, rm)) as u16,
        },
    )
}

/// The operand a mod-reg-r/m byte with fields `mode` and `rm` selects: a
/// register for addressing-mode class 3, otherwise a memory operand whose
/// displacement is read from the start of `s`.
pub open spec fn spec_resolve_rm(s: Seq<u8>, mode: u8, rm: u8, word_mode: bool) -> Place {
    if mode == 3 {
        spec_register(word_mode, rm)
    } else {
        spec_address(s, mode, rm)
    }
}

impl Place {
    /// The register place selected by a width flag and a three-bit register
    /// code.
    pub fn register(word_mode: bool, disc: u8) -> (p: Place)
        requires
            disc < 8,
        ensures
            p == spec_register(word_mode, disc),
            p.wf(),
            p.is_register(word_mode),
    {
        if word_mode {
            Place::Word(RegisterWord::from_octal(disc).unwrap())
        } else {
            Place::Byte(RegisterByte::from_octal(disc).unwrap())
        }
    }

    /// Reads the displacement a memory operand stores and builds the
    /// operand.
    pub fn address(r_m: u8, mode: Mode, memory: &mut &[u8]) -> (p: Place)
        requires
            r_m < 8,
            mode != Mode::RegisterToRegister,
        ensures
            p == spec_address(old(memory)@, mode.code(), r_m),
            final(memory)@ == old(memory)@.skip(end_of(old(memory)@, 0, disp_width(mode.code(), r_m))),
            p.wf(),
    {
        proof {
            lemma_pow256_values();
            lemma_le_val_bound(old(memory)@, 0, disp_width(mode.code(), r_m));
        }
        let displacement = if matches!(mode, Mode::EffectiveAdress) && r_m == 0b110 {
            advance_by(memory, 2)
        } else {
            let w: usize = match mode {
                Mode::EffectiveAdress => 0,
                Mode::EffectiveAdressByte => 1,
                Mode::EffectiveAdressWord => 2,
                Mode::RegisterToRegister => 0,
            };
            advance_by(memory, w)
        } as u16;
        Place::Adress(EffectiveAdress { index: r_m, mode, displacement })
    }

    /// Resolves the register-or-memory field of a mod-reg-r/m byte,
    /// consuming the displacement bytes its addressing-mode class stores.
    pub fn resolve_rm(r_m: u8, mode: Mode, word_mode: bool, memory: &mut &[u8]) -> (p: Place)
        requires
            r_m < 8,
        ensures
            p == spec_resolve_rm(old(memory)@, mode.code(), r_m, word_mode),
            final(memory)@ == old(memory)@.skip(end_of(old(memory)@, 0, disp_width(mode.code(), r_m))),
            p.wf(),
    {
        if matches!(mode, Mode::RegisterToRegister) {
            assert(old(memory)@ =~= old(memory)@.skip(0));
            Place::register(word_mode, r_m)
        } else {
            Place::address(r_m, mode, memory)
        }
    }
}

/// Skipping twice skips the sum.
pub proof fn lemma_skip_skip(s: Seq<u8>, a: int, b: int)
    requires
        0 <= a <= s.len(),
        0 <= b <= s.len() - a,
    ensures
        s.skip(a).skip(b) == s.skip(a + b),
{
    assert(s.skip(a).skip(b) =~= s.skip(a + b));
}

/// The signed value of a byte read as a two's-complement offset.
pub open spec fn as_signed8(b: u8) -> i8 {
    if b < 128 {
        b as i8
    } else {
        (b - 256) as i8
    }
}

/// Converts a raw byte to the signed offset it encodes.
fn to_signed8(b: u8) -> (r: i8)
    ensures
        r == as_signed8(b),
{
    if b < 128 {
        b as i8
    } else {
        ((b as i16) - 256) as i8
    }
}

/// The mod-reg-r/m fields of the byte at the start of `s`: addressing-mode
/// class (top two bits), register field (middle three), register-or-memory
/// field (bottom three).
pub open spec fn spec_mod_reg_rm(s: Seq<u8>) -> (u8, u8, u8) {
    let b = byte_at(s, 0);
    (b / 64, (b / 8) % 8, b % 8)
}

/// Reads a mod-reg-r/m byte and splits it into its three fields.
fn mod_reg_rm(memory: &mut &[u8]) -> (r: (u8, u8, u8))
    ensures
        r == spec_mod_reg_rm(old(memory)@),
        final(memory)@ == old(memory)@.skip(end_of(old(memory)@, 0, 1)),
        r.0 < 4 && r.1 < 8 && r.2 < 8,
{
    let byte = advance(memory);
    let r_m = byte % 8;
    let reg = (byte / 8) % 8;
    let mode = byte / 64;
    (mode, reg, r_m)
}

/// The two operands selected by a mod-reg-r/m byte at the start of `s`,
/// ordered by the direction flag, together with the number of bytes they
/// occupy (the mod-reg-r/m byte plus any displacement).
pub open spec fn spec_target_source(s: Seq<u8>, word_mode: bool, dest_mode: bool) -> (
    int,
    Place,
    Place,
) {
    let (mode, reg, rm) = spec_mod_reg_rm(s);
    let p = end_of(s, 0, 1);
    let rest = s.skip(p);
    let reg_place = spec_register(word_mode, reg);
    let rm_place = spec_resolve_rm(rest, mode, rm, word_mode);
    let n = p + end_of(rest, 0, disp_width(mode, rm));
    if dest_mode {
        (n, reg_place, rm_place)
    } else {
        (n, rm_place, reg_place)
    }
}

/// Reads a mod-reg-r/m byte and its displacement and returns the target and
/// source operands in the order the direction flag selects.
fn target_source(word_mode: bool, dest_mode: bool, memory: &mut &[u8]) -> (r: (Place, Place))
    ensures
        ({
            let (n, target, source) = spec_target_source(old(memory)@, word_mode, dest_mode);
            &&& r.0 == target
            &&& r.1 == source
            &&& final(memory)@ == old(memory)@.skip(n)
            &&& r.0.wf()
            &&& r.1.wf()
        }),
{
    let ghost s = memory@;
    let (mode_code, reg, r_m) = mod_reg_rm(memory);
    let mode = Mode::from_code(mode_code);
    let reg_place = Place::register(word_mode, reg);
    let rm_place = Place::resolve_rm(r_m, mode, word_mode, memory);
    proof {
        let p = end_of(s, 0, 1);
        lemma_skip_skip(s, p, end_of(s.skip(p), 0, disp_width(mode_code, r_m)));
    }
    if dest_mode {
        (reg_place, rm_place)
    } else {
        (rm_place, reg_place)
    }
}

/// Register/memory-with-register arithmetic: opcode bit 0 selects the width,
/// bit 1 the destination, bits 3 to 5 the operation.
pub open spec fn spec_arith(s: Seq<u8>) -> (int, Instruction) {
    let b = byte_at(s, 0);
    let word_flag = b % 2 == 1;
    let dest_flag = (b / 2) % 2 == 1;
    let op = (b / 8) % 8;
    let p = end_of(s, 0, 1);
    let (n, target, source) = spec_target_source(s.skip(p), word_flag, dest_flag);
    (p + n, Instruction::Arithmetic { op, target, source })
}

/// Immediate-to-accumulator arithmetic: a one- or two-byte immediate whose
/// target is AL or AX.
pub open spec fn spec_arith_imm_acc(s: Seq<u8>) -> (int, Instruction) {
    let b = byte_at(s, 0);
    let word_mode = b % 2 == 1;
    let op = (b / 8) % 8;
    let p = end_of(s, 0, 1);
    let w: int = if word_mode {
        2
    } else {
        1
    };
    let target = if word_mode {
        Place::Word(RegisterWord::AX)
    } else {
        Place::Byte(RegisterByte::AL)
    };
    let immediate = le_val(s.skip(p), 0, w) as u16;
    (p + end_of(s.skip(p), 0, w), Instruction::ArithmeticImmediate { op, target, immediate })
}

/// A conditional jump: the raw opcode byte plus one signed offset byte.
pub open spec fn spec_jump(s: Seq<u8>) -> (int, Instruction) {
    let b = byte_at(s, 0);
    let p = end_of(s, 0, 1);
    let offset = as_signed8(byte_at(s.skip(p), 0));
    (p + end_of(s.skip(p), 0, 1), Instruction::Jump { marker: b, offset })
}

/// A loop-family instruction: the raw opcode byte plus one signed offset
/// byte.
pub open spec fn spec_loop_family(s: Seq<u8>) -> (int, Instruction) {
    let b = byte_at(s, 0);
    let p = end_of(s, 0, 1);
    let offset = as_signed8(byte_at(s.skip(p), 0));
    (p + end_of(s.skip(p), 0, 1), Instruction::Loop { marker: b, offset })
}

/// Immediate arithmetic to a register-or-memory operand: opcode bit 0
/// selects the width, bit 1 whether a word-mode immediate is stored as a
/// single sign-carrying byte; the operation selector sits in the reg field
/// of the mod-reg-r/m byte.
pub open spec fn spec_arith_imm_rm(s: Seq<u8>) -> (int, Instruction) {
    let b = byte_at(s, 0);
    let word_mode = b % 2 == 1;
    let sign_extension = (b / 2) % 2 == 1;
    let p = end_of(s, 0, 1);
    let r1 = s.skip(p);
    let (mode, op, rm) = spec_mod_reg_rm(r1);
    let pm = end_of(r1, 0, 1);
    let r2 = r1.skip(pm);
    let target = spec_resolve_rm(r2, mode, rm, word_mode);
    let pd = end_of(r2, 0, disp_width(mode, rm));
    let r3 = r2.skip(pd);
    let w: int = if word_mode && !sign_extension {
        2
    } else {
        1
    };
    let immediate = le_val(r3, 0, w) as u16;
    (
        p + pm + pd + end_of(r3, 0, w),
        Instruction::ArithmeticImmediateToMemory { word_mode, op, target, immediate },
    )
}

/// A register/memory to/from register move.
pub open spec fn spec_mov(s: Seq<u8>) -> (int, Instruction) {
    let b = byte_at(s, 0);
    let word_mode = b % 2 == 1;
    let dest_mode = (b / 2) % 2 == 1;
    let p = end_of(s, 0, 1);
    let (n, target, source) = spec_target_source(s.skip(p), word_mode, dest_mode);
    (p + n, Instruction::Mov { target, source })
}

/// An immediate-to-register move: the register comes from the low three
/// bits of the opcode, the width from bit 3.
pub open spec fn spec_mov_imm_reg(s: Seq<u8>) -> (int, Instruction) {
    let b = byte_at(s, 0);
    let word_mode = (b / 8) % 2 == 1;
    let reg = b % 8;
    let p = end_of(s, 0, 1);
    let w: int = if word_mode {
        2
    } else {
        1
    };
    let target = spec_register(word_mode, reg);
    let immediate = le_val(s.skip(p), 0, w) as u16;
    (p + end_of(s.skip(p), 0, w), Instruction::MovImmediate { target, immediate })
}

/// An immediate-to-memory move: a mod-reg-r/m operand followed by a one- or
/// two-byte immediate.
pub open spec fn spec_mov_imm_rm(s: Seq<u8>) -> (int, Instruction) {
    let b = byte_at(s, 0);
    let word_mode = b % 2 == 1;
    let p = end_of(s, 0, 1);
    let r1 = s.skip(p);
    let (mode, reg, rm) = spec_mod_reg_rm(r1);
    let pm = end_of(r1, 0, 1);
    let r2 = r1.skip(pm);
    let target = spec_resolve_rm(r2, mode, rm, word_mode);
    let pd = end_of(r2, 0, disp_width(mode, rm));
    let r3 = r2.skip(pd);
    let w: int = if word_mode {
        2
    } else {
        1
    };
    let immediate = le_val(r3, 0, w) as u16;
    (
        p + pm + pd + end_of(r3, 0, w),
        Instruction::MovImmediateToMemory { word_mode, target, immediate },
    )
}

/// The instruction encoded at the start of `s` together with the number of
/// bytes it occupies there, dispatched on the leading byte exactly as the
/// 8086 encoding defines it.
pub open spec fn spec_decode(s: Seq<u8>) -> (int, Instruction) {
    let b = byte_at(s, 0);
    if b <= 0x03 || (0x28 <= b && b <= 0x2B) || (0x38 <= b && b <= 0x3B) {
        spec_arith(s)
    } else if (0x04 <= b && b <= 0x05) || (0x2C <= b && b <= 0x2D) || (0x3C <= b && b <= 0x3D) {
        spec_arith_imm_acc(s)
    } else if 0x70 <= b && b <= 0x7F {
        spec_jump(s)
    } else if 0xE0 <= b && b <= 0xE3 {
        spec_loop_family(s)
    } else if 0x80 <= b && b <= 0x83 {
        spec_arith_imm_rm(s)
    } else if 0x88 <= b && b <= 0x8C {
        spec_mov(s)
    } else if 0xB0 <= b && b <= 0xBF {
        spec_mov_imm_reg(s)
    } else if b == 0xC6 || b == 0xC7 {
        spec_mov_imm_rm(s)
    } else {
        (end_of(s, 0, 1), Instruction::Unrecognized(b))
    }
}

/// The number of bytes the instruction at the start of `s` occupies.
pub open spec fn spec_consumed(s: Seq<u8>) -> int {
    spec_decode(s).0
}

/// The instruction decoded at the start of `s`.
pub open spec fn spec_inst(s: Seq<u8>) -> Instruction {
    spec_decode(s).1
}

/// Decodes exactly one instruction from the front of the stream and
/// advances past it, returning the number of bytes consumed together with
/// the instruction.
#[verifier::rlimit(100)]
pub fn single_instruction(memory: &mut &[u8]) -> (r: (usize, Instruction))
    ensures
        r.1 == spec_inst(old(memory)@),
        r.0 == spec_consumed(old(memory)@),
        final(memory)@ == old(memory)@.skip(spec_consumed(old(memory)@)),
        0 <= spec_consumed(old(memory)@) <= old(memory)@.len(),
        old(memory)@.len() > 0 ==> r.0 >= 1,
{
    let ghost s = memory@;
    let mem_left_prior = memory.len();
    let byte = advance(memory);
    let ghost p = end_of(s, 0, 1);

    let instruction = if byte <= 0x03 || (0x28 <= byte && byte <= 0x2B) || (0x38 <= byte
        && byte <= 0x3B) {
        let word_flag = byte % 2 == 1;
        let dest_flag = (byte / 2) % 2 == 1;
        let op = (byte / 8) % 8;
        let (target, source) = target_source(word_flag, dest_flag, memory);
        proof {
            lemma_skip_skip(s, p, spec_target_source(s.skip(p), word_flag, dest_flag).0);
        }
        Instruction::Arithmetic { op, target, source }
    } else if (0x04 <= byte && byte <= 0x05) || (0x2C <= byte && byte <= 0x2D) || (0x3C <= byte
        && byte <= 0x3D) {
        let word_mode = byte % 2 == 1;
        let op = (byte / 8) % 8;
        let width: usize = if word_mode {
            2
        } else {
            1
        };
        proof {
            lemma_pow256_values();
            lemma_le_val_bound(s.skip(p), 0, width as int);
        }
        let immediate = advance_by(memory, width) as u16;
        let register = if word_mode {
            Place::Word(RegisterWord::AX)
        } else {
            Place::Byte(RegisterByte::AL)
        };
        proof {
            lemma_skip_skip(s, p, end_of(s.skip(p), 0, width as int));
        }
        Instruction::ArithmeticImmediate { op, target: register, immediate }
    } else if 0x70 <= byte && byte <= 0x7F {
        let offset = to_signed8(advance(memory));
        proof {
            lemma_skip_skip(s, p, end_of(s.skip(p), 0, 1));
        }
        Instruction::Jump { marker: byte, offset }
    } else if 0xE0 <= byte && byte <= 0xE3 {
        let offset = to_signed8(advance(memory));
        proof {
            lemma_skip_skip(s, p, end_of(s.skip(p), 0, 1));
        }
        Instruction::Loop { marker: byte, offset }
    } else if 0x80 <= byte && byte <= 0x83 {
        let word_mode = byte % 2 == 1;
        let sign_extension = (byte / 2) % 2 == 1;
        let ghost r1 = s.skip(p);
        let (mode_code, op, r_m) = mod_reg_rm(memory);
        let mode = Mode::from_code(mode_code);
        let ghost pm = end_of(r1, 0, 1);
        let ghost r2 = r1.skip(pm);
        let target = Place::resolve_rm(r_m, mode, word_mode, memory);
        let ghost pd = end_of(r2, 0, disp_width(mode_code, r_m));
        let ghost r3 = r2.skip(pd);
        let width: usize = if word_mode && !sign_extension {
            2
        } else {
            1
        };
        proof {
            lemma_pow256_values();
            lemma_le_val_bound(r3, 0, width as int);
        }
        let immediate = advance_by(memory, width) as u16;
        proof {
            lemma_skip_skip(r1, pm, pd);
            lemma_skip_skip(r2, pd, end_of(r3, 0, width as int));
            lemma_skip_skip(r1, pm + pd, end_of(r3, 0, width as int));
            lemma_skip_skip(s, p, pm + pd + end_of(r3, 0, width as int));
        }
        Instruction::ArithmeticImmediateToMemory { word_mode, op, target, immediate }
    } else if 0x88 <= byte && byte <= 0x8C {
        let word_mode = byte % 2 == 1;
        let dest_mode = (byte / 2) % 2 == 1;
        let (target, source) = target_source(word_mode, dest_mode, memory);
        proof {
            lemma_skip_skip(s, p, spec_target_source(s.skip(p), word_mode, dest_mode).0);
        }
        Instruction::Mov { target, source }
    } else if 0xB0 <= byte && byte <= 0xBF {
        let word_mode = (byte / 8) % 2 == 1;
        let reg = byte % 8;
        let target = Place::register(word_mode, reg);
        let width: usize = if word_mode {
            2
        } else {
            1
        };
        proof {
            lemma_pow256_values();
            lemma_le_val_bound(s.skip(p), 0, width as int);
        }
        let immediate = advance_by(memory, width) as u16;
        proof {
            lemma_skip_skip(s, p, end_of(s.skip(p), 0, width as int));
        }
        Instruction::MovImmediate { target, immediate }
    } else if byte == 0xC6 || byte == 0xC7 {
        let word_mode = byte % 2 == 1;
        let ghost r1 = s.skip(p);
        let (mode_code, _reg, r_m) = mod_reg_rm(memory);
        let mode = Mode::from_code(mode_code);
        let ghost pm = end_of(r1, 0, 1);
        let ghost r2 = r1.skip(pm);
        let target = Place::resolve_rm(r_m, mode, word_mode, memory);
        let ghost pd = end_of(r2, 0, disp_width(mode_code, r_m));
        let ghost r3 = r2.skip(pd);
        let width: usize = if word_mode {
            2
        } else {
            1
        };
        proof {
            lemma_pow256_values();
            lemma_le_val_bound(r3, 0, width as int);
        }
        let immediate = advance_by(memory, width) as u16;
        proof {
            lemma_skip_skip(r1, pm, pd);
            lemma_skip_skip(r2, pd, end_of(r3, 0, width as int));
            lemma_skip_skip(r1, pm + pd, end_of(r3, 0, width as int));
            lemma_skip_skip(s, p, pm + pd + end_of(r3, 0, width as int));
        }
        Instruction::MovImmediateToMemory { word_mode, target, immediate }
    } else {
        Instruction::Unrecognized(byte)
    };
    let mem_left_after = memory.len();
    let offset = mem_left_prior - mem_left_after;

    (offset, instruction)
}

/// A resolved register-or-memory operand is always well formed.
pub proof fn lemma_resolve_rm_wf(s: Seq<u8>, mode: u8, rm: u8, word_mode: bool)
    requires
        mode < 4,
        rm < 8,
    ensures
        spec_resolve_rm(s, mode, rm, word_mode).wf(),
{
    lemma_pow256_values();
    lemma_le_val_bound(s, 0, disp_width(mode, rm));
}

/// Decoding only ever produces well-formed instructions: operation
/// selectors fit in three bits and operands are well formed.
pub proof fn lemma_decode_wf(s: Seq<u8>)
    ensures
        spec_inst(s).wf(),
{
    let b = byte_at(s, 0);
    let p = end_of(s, 0, 1);
    if b <= 0x03 || (0x28 <= b && b <= 0x2B) || (0x38 <= b && b <= 0x3B) || (0x88 <= b && b
        <= 0x8C) {
        let t = s.skip(p);
        let (mode, reg, rm) = spec_mod_reg_rm(t);
        lemma_resolve_rm_wf(t.skip(end_of(t, 0, 1)), mode, rm, b % 2 == 1);
    } else if (0x80 <= b && b <= 0x83) || b == 0xC6 || b == 0xC7 {
        let r1 = s.skip(p);
        let (mode, reg, rm) = spec_mod_reg_rm(r1);
        lemma_resolve_rm_wf(r1.skip(end_of(r1, 0, 1)), mode, rm, b % 2 == 1);
    }
}

/// Decoding consumes at least the leading byte and never more than the
/// stream holds.
pub proof fn lemma_consumed_bounds(s: Seq<u8>)
    ensures
        0 <= spec_consumed(s) <= s.len(),
        s.len() > 0 ==> spec_consumed(s) >= 1,
{
}

/// The disassembly of a whole stream: each instruction's text on its own
/// line, decoded strictly left to right until the stream is exhausted.
pub open spec fn spec_disassembly(s: Seq<u8>) -> Seq<char>
    decreases s.len(),
    via spec_disassembly_decreases
{
    if s.len() == 0 {
        Seq::<char>::empty()
    } else {
        crate::render::spec_render(spec_inst(s)) + "\n"@ + spec_disassembly(
            s.skip(spec_consumed(s)),
        )
    }
}

#[via_fn]
proof fn spec_disassembly_decreases(s: Seq<u8>) {
    if s.len() != 0 {
        lemma_consumed_bounds(s);
    }
}

/// Decodes every instruction in the stream and appends each one's text and
/// a newline to `disassembly`, consuming the whole stream.
pub fn all_instructions_into(memory: &mut &[u8], disassembly: &mut String)
    ensures
        final(disassembly)@ == old(disassembly)@ + spec_disassembly(old(memory)@),
        final(memory)@.len() == 0,
{
    while !memory.is_empty()
        invariant
            disassembly@ + spec_disassembly(memory@) == old(disassembly)@ + spec_disassembly(
                old(memory)@,
            ),
        decreases memory@.len(),
    {
        let ghost before = memory@;
        let ghost text_before = disassembly@;
        let (_, instruction) = single_instruction(memory);
        proof {
            lemma_decode_wf(before);
        }
        crate::render::push_instruction(disassembly, &instruction);
        disassembly.append("\n");
        proof {
            assert(disassembly@ + spec_disassembly(memory@) =~= text_before + spec_disassembly(
                before,
            ));
        }
    }
    proof {
        assert(spec_disassembly(memory@) =~= Seq::<char>::empty());
        assert(disassembly@ =~= old(disassembly)@ + spec_disassembly(old(memory)@));
    }
}

/// Disassembles a whole stream: a `bits 16` directive line followed by one
/// rendered instruction per line.
pub fn all_instructions(mut memory: &[u8]) -> (r: String)
    ensures
        r@ == "bits 16\n"@ + spec_disassembly(memory@),
{
    let mut disassembly = String::new();
    disassembly.append("bits 16\n");
    crate::decode::all_instructions_into(&mut memory, &mut disassembly);
    disassembly
}

/// The length the encoding defines for the instruction at the start of
/// `s`, read off the opcode byte and the mod-reg-r/m byte alone: the
/// opcode, the mod-reg-r/m byte and displacement where the form has them,
/// and the immediate the width flags call for.
pub open spec fn spec_instr_len(s: Seq<u8>) -> int {
    let b = byte_at(s, 0);
    let mb = byte_at(s, 1);
    let mode = mb / 64;
    let rm = mb % 8;
    if b <= 0x03 || (0x28 <= b && b <= 0x2B) || (0x38 <= b && b <= 0x3B) || (0x88 <= b && b
        <= 0x8C) {
        2 + disp_width(mode, rm)
    } else if (0x04 <= b && b <= 0x05) || (0x2C <= b && b <= 0x2D) || (0x3C <= b && b <= 0x3D) {
        2 + (b % 2)
    } else if (0x70 <= b && b <= 0x7F) || (0xE0 <= b && b <= 0xE3) {
        2
    } else if 0x80 <= b && b <= 0x83 {
        3 + disp_width(mode, rm) + if b % 2 == 1 && (b / 2) % 2 == 0 {
            1int
        } else {
            0int
        }
    } else if 0xB0 <= b && b <= 0xBF {
        2 + (b / 8) % 2
    } else if b == 0xC6 || b == 0xC7 {
        3 + disp_width(mode, rm) + (b % 2)
    } else {
        1
    }
}

/// The consumption-length law: the number of bytes the decoder consumes is
/// exactly the length the encoding defines for that opcode/mode
/// combination, clamped only by the end of the stream.
pub proof fn lemma_consumption_length(s: Seq<u8>)
    ensures
        spec_consumed(s) == if spec_instr_len(s) <= s.len() {
            spec_instr_len(s)
        } else {
            s.len() as int
        },
{
    if s.len() >= 2 {
        assert(byte_at(s.skip(1), 0) == byte_at(s, 1));
    }
}

/// The direct-address law: resolving a register-or-memory operand of
/// addressing-mode class 0 with base-index selector 6 yields a direct
/// 16-bit address operand — two displacement bytes read little-endian, no
/// base register — and never "BP with no offset"; its rendering shows the
/// absolute address alone.
pub proof fn lemma_direct_address_special_case(s: Seq<u8>, word_mode: bool)
    ensures
        disp_width(0, 6) == 2,
        spec_resolve_rm(s, 0, 6, word_mode) == Place::Adress(
            EffectiveAdress {
                index: 6,
                mode: Mode::EffectiveAdress,
                displacement: (byte_at(s, 0) + 256 * byte_at(s, 1)) as u16,
            },
        ),
        spec_resolve_rm(s, 0, 6, word_mode)->Adress_0.is_direct(),
        crate::render::place_str(spec_resolve_rm(s, 0, 6, word_mode)) == "["@ + crate::render::dec_digits(
            le_val(s, 0, 2) as nat,
        ) + "]"@,
{
    reveal_with_fuel(le_val, 3);
}

pub proof fn lemma_pow256_values()
    ensures
        pow256(0) == 1,
        pow256(1) == 256,
        pow256(2) == 65536,
        pow256(3) == 16777216,
        pow256(4) == 4294967296,
{
    reveal_with_fuel(pow256, 5);
}

pub proof fn lemma_pow256_monotone(a: int, b: int)
    requires
        a <= b,
    ensures
        pow256(a) <= pow256(b),
    decreases b,
{
    if a < b && b > 0 {
        lemma_pow256_monotone(a, b - 1);
        lemma_pow256_pos(b - 1);
    }
}

} // verus!
