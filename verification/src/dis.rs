//! A second, smaller disassembler that reads its input bit by bit.
//!
//! It covers only the register/memory and immediate-to-register move forms;
//! everything else is reported as an error rather than decoded.  The input
//! is a [`BitInput`]: the remaining bytes together with the number of bits
//! already consumed from the first of them, most significant bit first.
use vstd::prelude::*;
use vstd::string::StringExecFns;

use crate::decode::byte_at;
use crate::render::dec_digits;

verus! {

/// The remaining bytes and the bit offset (0 to 7) already consumed from
/// the first of them.
pub type BitInput<'a> = (&'a [u8], usize);

/// Why a parse stopped: the stream ended inside a field, or the opcode
/// names a form this disassembler does not support.
#[derive(Debug, Clone, Copy, PartialEq, Eq, Structural)]
pub enum ParseError {
    Incomplete,
    Unsupported,
}

/// One parsed move instruction: the operation class and its two operands.
#[derive(Debug, Clone, Copy, PartialEq, Eq, Structural)]
pub struct Instruction {
    pub operation: Operation,
    pub destination: Location,
    pub source: Source,
}

/// Where a value lives: a register or a memory operand.
#[derive(Debug, Clone, Copy, PartialEq, Eq, Structural)]
pub enum Location {
    Reg(Register),
    Addr(EAddress),
}

/// What a move reads: a location or an immediate.
#[derive(Debug, Clone, Copy, PartialEq, Eq, Structural)]
pub enum Source {
    Loc(Location),
    Imm(Immediate),
}

/// An immediate of either width.
#[derive(Debug, Clone, Copy, PartialEq, Eq, Structural)]
pub enum Immediate {
    Byte(u8),
    Word(u16),
}

/// The operation classes this disassembler distinguishes.
#[derive(Debug, Clone, Copy, PartialEq, Eq, Structural)]
pub enum Operation {
    MovRegRM,
    MovImmediateRM,
    MovImmediateReg,
    Unimplemented,
}

/// A memory operand: a base combination alone or with an offset.
#[derive(Debug, Clone, Copy, PartialEq, Eq, Structural)]
pub enum EAddress {
    Bare(Address),
    WithOffset(Address, Immediate),
}

/// The eight base-register combinations, in encoding order.
#[derive(Debug, Clone, Copy, PartialEq, Eq, Structural)]
pub enum Address {
    BxSi,
    BxDi,
    BpSi,
    BpDi,
    Si,
    Di,
    Bp,
    Bx,
}

/// All sixteen registers, byte then word.
#[derive(Debug, Clone, Copy, PartialEq, Eq, Structural)]
pub enum Register {
    Al,
    Dl,
    Cl,
    Bl,
    Ah,
    Dh,
    Ch,
    Bh,
    Ax,
    Dx,
    Cx,
    Bx,
    Sp,
    Bp,
    Si,
    Di,
}

/// Powers of two, for selecting single bits.
pub open spec fn pow2(e: int) -> int
    decreases e,
{
    if e <= 0 {
        1
    } else {
        2 * pow2(e - 1)
    }
}

proof fn lemma_pow2_values()
    ensures
        pow2(0) == 1,
        pow2(1) == 2,
        pow2(2) == 4,
        pow2(3) == 8,
        pow2(4) == 16,
        pow2(5) == 32,
        pow2(6) == 64,
        pow2(7) == 128,
        pow2(8) == 256,
{
    reveal_with_fuel(pow2, 9);
}

/// The bit at absolute bit position `pos` of the stream, most significant
/// bit of each byte first.
pub open spec fn bit_at(s: Seq<u8>, pos: int) -> int {
    ((byte_at(s, pos / 8) as int) / pow2(7 - pos % 8)) % 2
}

/// The value of the `n` bits starting at bit position `pos`, most
/// significant bit first.
pub open spec fn bits_val(s: Seq<u8>, pos: int, n: int) -> int
    decreases n,
{
    if n <= 0 {
        0
    } else {
        bits_val(s, pos, n - 1) * 2 + bit_at(s, pos + n - 1)
    }
}

proof fn lemma_bits_val_bound(s: Seq<u8>, pos: int, n: int)
    ensures
        0 <= bits_val(s, pos, n) < pow2(n),
    decreases n,
{
    if n <= 0 {
    } else {
        lemma_bits_val_bound(s, pos, n - 1);
        assert(0 <= bit_at(s, pos + n - 1) < 2) by {
            lemma_pow2_pos(7 - (pos + n - 1) % 8);
        }
    }
}

proof fn lemma_pow2_pos(e: int)
    ensures
        pow2(e) >= 1,
    decreases e,
{
    if e > 0 {
        lemma_pow2_pos(e - 1);
    }
}

proof fn lemma_pow2_monotone(a: int, b: int)
    requires
        a <= b,
    ensures
        pow2(a) <= pow2(b),
    decreases b,
{
    if a < b && b > 0 {
        lemma_pow2_monotone(a, b - 1);
        lemma_pow2_pos(b - 1);
    }
}

/// Reading `n` bits at offset `off` succeeds exactly when the stream still
/// holds them; it yields their value and the advanced input.
pub open spec fn spec_take(s: Seq<u8>, off: int, n: int) -> Result<
    (Seq<u8>, int, int),
    ParseError,
> {
    if off + n <= 8 * s.len() {
        Ok((s.skip((off + n) / 8), (off + n) % 8, bits_val(s, off, n)))
    } else {
        Err(ParseError::Incomplete)
    }
}

/// A power of two small enough for a byte.
fn pow2_u8(e: u8) -> (r: u8)
    requires
        e < 8,
    ensures
        r as int == pow2(e as int),
{
    proof {
        lemma_pow2_values();
    }
    if e == 0 {
        1
    } else if e == 1 {
        2
    } else if e == 2 {
        4
    } else if e == 3 {
        8
    } else if e == 4 {
        16
    } else if e == 5 {
        32
    } else if e == 6 {
        64
    } else {
        128
    }
}

/// Reads `n` bits, most significant first, and advances past them.
pub fn take_bits<'a>(i: BitInput<'a>, n: u8) -> (r: Result<(BitInput<'a>, u8), ParseError>)
    requires
        i.1 < 8,
        1 <= n <= 8,
    ensures
        ({
            match (r, spec_take(i.0@, i.1 as int, n as int)) {
                (Ok((rest, v)), Ok((s2, o2, v2))) => rest.0@ == s2 && rest.1 == o2 && v == v2
                    && rest.1 < 8,
                (Err(e), Err(e2)) => e == e2,
                _ => false,
            }
        }),
{
    let ghost s = i.0@;
    let off = i.1;
    let enough = if i.0.len() >= 2 {
        true
    } else {
        off + (n as usize) <= 8 * i.0.len()
    };
    if !enough {
        return Err(ParseError::Incomplete);
    }
    let mut acc: u8 = 0;
    let mut k: u8 = 0;
    while k < n
        invariant
            k <= n <= 8,
            off < 8,
            s == i.0@,
            off + n <= 8 * s.len(),
            acc as int == bits_val(s, off as int, k as int),
            acc < pow2(k as int),
        decreases n - k,
    {
        let pos = off + (k as usize);
        proof {
            lemma_pow2_values();
            lemma_pow2_monotone(k as int, 7);
            assert(pos / 8 < s.len()) by (nonlinear_arith)
                requires
                    pos < 8 * s.len(),
            ;
        }
        let byte = i.0[pos / 8];
        let shift = 7 - (pos % 8) as u8;
        let bit = (byte / pow2_u8(shift)) % 2;
        proof {
            lemma_pow2_pos(shift as int);
            assert(bit as int == bit_at(s, pos as int));
            lemma_bits_val_bound(s, off as int, k as int + 1);
        }
        acc = acc * 2 + bit;
        k = k + 1;
    }
    let advanced = off + (n as usize);
    let rest_slice = vstd::slice::slice_subrange(i.0, advanced / 8, i.0.len());
    proof {
        assert(advanced / 8 <= i.0@.len()) by (nonlinear_arith)
            requires
                advanced <= 8 * i.0@.len(),
        ;
    }
    Ok(((rest_slice, advanced % 8), acc))
}

/// Reads a single bit as a flag.
pub open spec fn spec_take_bool(s: Seq<u8>, off: int) -> Result<(Seq<u8>, int, bool), ParseError> {
    match spec_take(s, off, 1) {
        Ok((s1, o1, v)) => Ok((s1, o1, v == 1)),
        Err(e) => Err(e),
    }
}

fn take_bool<'a>(i: BitInput<'a>) -> (r: Result<(BitInput<'a>, bool), ParseError>)
    requires
        i.1 < 8,
    ensures
        ({
            match (r, spec_take_bool(i.0@, i.1 as int)) {
                (Ok((rest, v)), Ok((s2, o2, v2))) => rest.0@ == s2 && rest.1 == o2 && v == v2
                    && rest.1 < 8,
                (Err(e), Err(e2)) => e == e2,
                _ => false,
            }
        }),
{
    match take_bits(i, 1) {
        Ok((rest, v)) => Ok((rest, v == 1)),
        Err(e) => Err(e),
    }
}

/// Reads four bits.
pub fn take_nibble<'a>(i: BitInput<'a>) -> (r: Result<(BitInput<'a>, u8), ParseError>)
    requires
        i.1 < 8,
    ensures
        ({
            match (r, spec_take(i.0@, i.1 as int, 4)) {
                (Ok((rest, v)), Ok((s2, o2, v2))) => rest.0@ == s2 && rest.1 == o2 && v == v2
                    && rest.1 < 8,
                (Err(e), Err(e2)) => e == e2,
                _ => false,
            }
        }),
{
    take_bits(i, 4)
}

/// Reads three bits.
pub fn take_3bits<'a>(i: BitInput<'a>) -> (r: Result<(BitInput<'a>, u8), ParseError>)
    requires
        i.1 < 8,
    ensures
        ({
            match (r, spec_take(i.0@, i.1 as int, 3)) {
                (Ok((rest, v)), Ok((s2, o2, v2))) => rest.0@ == s2 && rest.1 == o2 && v == v2
                    && rest.1 < 8,
                (Err(e), Err(e2)) => e == e2,
                _ => false,
            }
        }),
{
    take_bits(i, 3)
}

/// Reads two bits.
pub fn take_2bits<'a>(i: BitInput<'a>) -> (r: Result<(BitInput<'a>, u8), ParseError>)
    requires
        i.1 < 8,
    ensures
        ({
            match (r, spec_take(i.0@, i.1 as int, 2)) {
                (Ok((rest, v)), Ok((s2, o2, v2))) => rest.0@ == s2 && rest.1 == o2 && v == v2
                    && rest.1 < 8,
                (Err(e), Err(e2)) => e == e2,
                _ => false,
            }
        }),
{
    take_bits(i, 2)
}

impl Register {
    /// The byte register a three-bit register code selects.
    pub open spec fn spec_byte(value: u8) -> Register {
        if value == 0 {
            Register::Al
        } else if value == 1 {
            Register::Cl
        } else if value == 2 {
            Register::Dl
        } else if value == 3 {
            Register::Bl
        } else if value == 4 {
            Register::Ah
        } else if value == 5 {
            Register::Ch
        } else if value == 6 {
            Register::Dh
        } else {
            Register::Bh
        }
    }

    /// The word register a three-bit register code selects.
    pub open spec fn spec_word(value: u8) -> Register {
        if value == 0 {
            Register::Ax
        } else if value == 1 {
            Register::Cx
        } else if value == 2 {
            Register::Dx
        } else if value == 3 {
            Register::Bx
        } else if value == 4 {
            Register::Sp
        } else if value == 5 {
            Register::Bp
        } else if value == 6 {
            Register::Si
        } else {
            Register::Di
        }
    }

    /// Maps a three-bit register code to a byte register.
    pub fn byte(value: u8) -> (r: Register)
        ensures
            r == Register::spec_byte(value),
    {
        match value {
            0 => Register::Al,
            1 => Register::Cl,
            2 => Register::Dl,
            3 => Register::Bl,
            4 => Register::Ah,
            5 => Register::Ch,
            6 => Register::Dh,
            _ => Register::Bh,
        }
    }

    /// Maps a three-bit register code to a word register.
    pub fn word(value: u8) -> (r: Register)
        ensures
            r == Register::spec_word(value),
    {
        match value {
            0 => Register::Ax,
            1 => Register::Cx,
            2 => Register::Dx,
            3 => Register::Bx,
            4 => Register::Sp,
            5 => Register::Bp,
            6 => Register::Si,
            _ => Register::Di,
        }
    }
}

/// Reads a three-bit register code and maps it by width.
pub open spec fn spec_parse_reg(w_bit: bool, s: Seq<u8>, off: int) -> Result<
    (Seq<u8>, int, Register),
    ParseError,
> {
    match spec_take(s, off, 3) {
        Ok((s1, o1, v)) => Ok(
            (
                s1,
                o1,
                if w_bit {
                    Register::spec_word(v as u8)
                } else {
                    Register::spec_byte(v as u8)
                },
            ),
        ),
        Err(e) => Err(e),
    }
}

/// Reads a register operand of the selected width.
pub fn parse_reg<'a>(w_bit: bool, i: BitInput<'a>) -> (r: Result<
    (BitInput<'a>, Register),
    ParseError,
>)
    requires
        i.1 < 8,
    ensures
        ({
            match (r, spec_parse_reg(w_bit, i.0@, i.1 as int)) {
                (Ok((rest, v)), Ok((s2, o2, v2))) => rest.0@ == s2 && rest.1 == o2 && v == v2
                    && rest.1 < 8,
                (Err(e), Err(e2)) => e == e2,
                _ => false,
            }
        }),
{
    match take_3bits(i) {
        Ok((rest, v)) => {
            proof {
                lemma_bits_val_bound(i.0@, i.1 as int, 3);
                lemma_pow2_values();
            }
            if w_bit {
                Ok((rest, Register::word(v)))
            } else {
                Ok((rest, Register::byte(v)))
            }
        },
        Err(e) => Err(e),
    }
}

/// Reads an immediate: one byte, or a little-endian pair in word mode.
pub open spec fn spec_parse_immediate(s: Seq<u8>, off: int, is_word: bool) -> Result<
    (Seq<u8>, int, Immediate),
    ParseError,
> {
    match spec_take(s, off, 8) {
        Ok((s1, o1, low)) => if !is_word {
            Ok((s1, o1, Immediate::Byte(low as u8)))
        } else {
            match spec_take(s1, o1, 8) {
                Ok((s2, o2, high)) => Ok((s2, o2, Immediate::Word((high * 256 + low) as u16))),
                Err(e) => Err(e),
            }
        },
        Err(e) => Err(e),
    }
}

fn parse_immediate<'a>(i: BitInput<'a>, is_word: bool) -> (r: Result<
    (BitInput<'a>, Immediate),
    ParseError,
>)
    requires
        i.1 < 8,
    ensures
        ({
            match (r, spec_parse_immediate(i.0@, i.1 as int, is_word)) {
                (Ok((rest, v)), Ok((s2, o2, v2))) => rest.0@ == s2 && rest.1 == o2 && v == v2
                    && rest.1 < 8,
                (Err(e), Err(e2)) => e == e2,
                _ => false,
            }
        }),
{
    let low = match take_bits(i, 8) {
        Ok(ok) => ok,
        Err(e) => {
            return Err(e);
        },
    };
    if !is_word {
        Ok((low.0, Immediate::Byte(low.1)))
    } else {
        proof {
            lemma_bits_val_bound(i.0@, i.1 as int, 8);
            lemma_pow2_values();
        }
        match take_bits(low.0, 8) {
            Ok((rest, high)) => {
                proof {
                    lemma_bits_val_bound(low.0.0@, low.0.1 as int, 8);
                }
                Ok((rest, Immediate::Word((high as u16) * 256 + (low.1 as u16))))
            },
            Err(e) => Err(e),
        }
    }
}

/// Reads a three-bit base-index and maps it to its base combination.
pub open spec fn spec_parse_addr(s: Seq<u8>, off: int) -> Result<
    (Seq<u8>, int, Address),
    ParseError,
> {
    match spec_take(s, off, 3) {
        Ok((s1, o1, v)) => Ok((s1, o1, spec_address_of(v as u8))),
        Err(e) => Err(e),
    }
}

/// The base combination a three-bit base-index selects.
pub open spec fn spec_address_of(v: u8) -> Address {
    if v == 0 {
        Address::BxSi
    } else if v == 1 {
        Address::BxDi
    } else if v == 2 {
        Address::BpSi
    } else if v == 3 {
        Address::BpDi
    } else if v == 4 {
        Address::Si
    } else if v == 5 {
        Address::Di
    } else if v == 6 {
        Address::Bp
    } else {
        Address::Bx
    }
}

fn parse_addr<'a>(i: BitInput<'a>) -> (r: Result<(BitInput<'a>, Address), ParseError>)
    requires
        i.1 < 8,
    ensures
        ({
            match (r, spec_parse_addr(i.0@, i.1 as int)) {
                (Ok((rest, v)), Ok((s2, o2, v2))) => rest.0@ == s2 && rest.1 == o2 && v == v2
                    && rest.1 < 8,
                (Err(e), Err(e2)) => e == e2,
                _ => false,
            }
        }),
{
    match take_3bits(i) {
        Ok((rest, v)) => {
            let addr = if v == 0 {
                Address::BxSi
            } else if v == 1 {
                Address::BxDi
            } else if v == 2 {
                Address::BpSi
            } else if v == 3 {
                Address::BpDi
            } else if v == 4 {
                Address::Si
            } else if v == 5 {
                Address::Di
            } else if v == 6 {
                Address::Bp
            } else {
                Address::Bx
            };
            Ok((rest, addr))
        },
        Err(e) => Err(e),
    }
}

/// Builds the memory operand of a base combination: bare for
/// addressing-mode class 0, otherwise with a one- or two-byte offset.
pub open spec fn spec_parse_eaddr(s: Seq<u8>, off: int, mode: u8, addr: Address) -> Result<
    (Seq<u8>, int, EAddress),
    ParseError,
> {
    if mode == 0 {
        Ok((s, off, EAddress::Bare(addr)))
    } else {
        match spec_parse_immediate(s, off, mode == 2) {
            Ok((s1, o1, imm)) => Ok((s1, o1, EAddress::WithOffset(addr, imm))),
            Err(e) => Err(e),
        }
    }
}

fn parse_eaddr<'a>(i: BitInput<'a>, mode: u8, addr: Address) -> (r: Result<
    (BitInput<'a>, EAddress),
    ParseError,
>)
    requires
        i.1 < 8,
        mode < 4,
    ensures
        ({
            match (r, spec_parse_eaddr(i.0@, i.1 as int, mode, addr)) {
                (Ok((rest, v)), Ok((s2, o2, v2))) => rest.0@ == s2 && rest.1 == o2 && v == v2
                    && rest.1 < 8,
                (Err(e), Err(e2)) => e == e2,
                _ => false,
            }
        }),
{
    if mode == 0 {
        Ok((i, EAddress::Bare(addr)))
    } else {
        match parse_immediate(i, mode == 2) {
            Ok((rest, imm)) => Ok((rest, EAddress::WithOffset(addr, imm))),
            Err(e) => Err(e),
        }
    }
}

/// Resolves the register-or-memory field: a register for addressing-mode
/// class 3, otherwise a memory operand.
pub open spec fn spec_parse_rm(s: Seq<u8>, off: int, mode: u8, w_bit: bool) -> Result<
    (Seq<u8>, int, Location),
    ParseError,
> {
    if mode == 3 {
        match spec_parse_reg(w_bit, s, off) {
            Ok((s1, o1, reg)) => Ok((s1, o1, Location::Reg(reg))),
            Err(e) => Err(e),
        }
    } else {
        match spec_parse_addr(s, off) {
            Ok((s1, o1, addr)) => match spec_parse_eaddr(s1, o1, mode, addr) {
                Ok((s2, o2, eaddr)) => Ok((s2, o2, Location::Addr(eaddr))),
                Err(e) => Err(e),
            },
            Err(e) => Err(e),
        }
    }
}

fn parse_rm<'a>(mode: u8, w_bit: bool, i: BitInput<'a>) -> (r: Result<
    (BitInput<'a>, Location),
    ParseError,
>)
    requires
        i.1 < 8,
        mode < 4,
    ensures
        ({
            match (r, spec_parse_rm(i.0@, i.1 as int, mode, w_bit)) {
                (Ok((rest, v)), Ok((s2, o2, v2))) => rest.0@ == s2 && rest.1 == o2 && v == v2
                    && rest.1 < 8,
                (Err(e), Err(e2)) => e == e2,
                _ => false,
            }
        }),
{
    if mode == 3 {
        match parse_reg(w_bit, i) {
            Ok((rest, reg)) => Ok((rest, Location::Reg(reg))),
            Err(e) => Err(e),
        }
    } else {
        match parse_addr(i) {
            Ok((rest, addr)) => match parse_eaddr(rest, mode, addr) {
                Ok((rest2, eaddr)) => Ok((rest2, Location::Addr(eaddr))),
                Err(e) => Err(e),
            },
            Err(e) => Err(e),
        }
    }
}

/// Reads the leading opcode bits and classifies the instruction; the two
/// unsupported move families are reported as errors.
pub open spec fn spec_parse_opcode(s: Seq<u8>, off: int) -> Result<
    (Seq<u8>, int, Operation),
    ParseError,
> {
    match spec_take(s, off, 4) {
        Ok((s1, o1, nibble)) => if nibble == 8 {
            match spec_take(s1, o1, 2) {
                Ok((s2, o2, _)) => Ok((s2, o2, Operation::MovRegRM)),
                Err(e) => Err(e),
            }
        } else if nibble == 11 {
            Ok((s1, o1, Operation::MovImmediateReg))
        } else if nibble == 12 || nibble == 10 {
            Err(ParseError::Unsupported)
        } else {
            Ok((s1, o1, Operation::Unimplemented))
        },
        Err(e) => Err(e),
    }
}

/// Reads and classifies the opcode.
pub fn parse_opcode<'a>(i: BitInput<'a>) -> (r: Result<(BitInput<'a>, Operation), ParseError>)
    requires
        i.1 < 8,
    ensures
        ({
            match (r, spec_parse_opcode(i.0@, i.1 as int)) {
                (Ok((rest, v)), Ok((s2, o2, v2))) => rest.0@ == s2 && rest.1 == o2 && v == v2
                    && rest.1 < 8,
                (Err(e), Err(e2)) => e == e2,
                _ => false,
            }
        }),
{
    let (i, partial) = match take_nibble(i) {
        Ok(ok) => ok,
        Err(e) => {
            return Err(e);
        },
    };
    if partial == 0b1000 {
        match take_2bits(i) {
            Ok((rest, _)) => Ok((rest, Operation::MovRegRM)),
            Err(e) => Err(e),
        }
    } else if partial == 0b1011 {
        Ok((i, Operation::MovImmediateReg))
    } else if partial == 0b1100 || partial == 0b1010 {
        Err(ParseError::Unsupported)
    } else {
        Ok((i, Operation::Unimplemented))
    }
}

/// Parses one instruction: the opcode, then the operand fields its class
/// calls for.  Only the two supported move classes succeed.
pub open spec fn spec_parse_instruction(s: Seq<u8>, off: int) -> Result<
    (Seq<u8>, int, Instruction),
    ParseError,
> {
    match spec_parse_opcode(s, off) {
        Err(e) => Err(e),
        Ok((s1, o1, opcode)) => match opcode {
            Operation::MovRegRM => match spec_take_bool(s1, o1) {
                Err(e) => Err(e),
                Ok((s2, o2, d_bit)) => match spec_take_bool(s2, o2) {
                    Err(e) => Err(e),
                    Ok((s3, o3, is_word)) => match spec_take(s3, o3, 2) {
                        Err(e) => Err(e),
                        Ok((s4, o4, mode)) => match spec_parse_reg(is_word, s4, o4) {
                            Err(e) => Err(e),
                            Ok((s5, o5, reg)) => match spec_parse_rm(
                                s5,
                                o5,
                                mode as u8,
                                is_word,
                            ) {
                                Err(e) => Err(e),
                                Ok((s6, o6, rm)) => {
                                    let (destination, source) = if d_bit {
                                        (Location::Reg(reg), Source::Loc(rm))
                                    } else {
                                        (rm, Source::Loc(Location::Reg(reg)))
                                    };
                                    Ok(
                                        (
                                            s6,
                                            o6,
                                            Instruction {
                                                operation: opcode,
                                                destination,
                                                source,
                                            },
                                        ),
                                    )
                                },
                            },
                        },
                    },
                },
            },
            Operation::MovImmediateReg => match spec_take_bool(s1, o1) {
                Err(e) => Err(e),
                Ok((s2, o2, is_word)) => match spec_parse_reg(is_word, s2, o2) {
                    Err(e) => Err(e),
                    Ok((s3, o3, reg)) => match spec_parse_immediate(s3, o3, is_word) {
                        Err(e) => Err(e),
                        Ok((s4, o4, val)) => Ok(
                            (
                                s4,
                                o4,
                                Instruction {
                                    operation: opcode,
                                    destination: Location::Reg(reg),
                                    source: Source::Imm(val),
                                },
                            ),
                        ),
                    },
                },
            },
            _ => Err(ParseError::Unsupported),
        },
    }
}

/// Parses exactly one instruction from the front of the bit stream.
#[verifier::rlimit(100)]
pub fn parse_instruction<'a>(i: BitInput<'a>) -> (r: Result<
    (BitInput<'a>, Instruction),
    ParseError,
>)
    requires
        i.1 < 8,
    ensures
        ({
            match (r, spec_parse_instruction(i.0@, i.1 as int)) {
                (Ok((rest, v)), Ok((s2, o2, v2))) => rest.0@ == s2 && rest.1 == o2 && v == v2
                    && rest.1 < 8,
                (Err(e), Err(e2)) => e == e2,
                _ => false,
            }
        }),
{
    let (i, opcode) = match parse_opcode(i) {
        Ok(ok) => ok,
        Err(e) => {
            return Err(e);
        },
    };
    match opcode {
        Operation::MovRegRM => {
            let (i, d_bit) = match take_bool(i) {
                Ok(ok) => ok,
                Err(e) => {
                    return Err(e);
                },
            };
            let (i, is_word) = match take_bool(i) {
                Ok(ok) => ok,
                Err(e) => {
                    return Err(e);
                },
            };
            let ghost before_mode = (i.0@, i.1 as int);
            let (i, mode) = match take_2bits(i) {
                Ok(ok) => ok,
                Err(e) => {
                    return Err(e);
                },
            };
            proof {
                lemma_pow2_values();
                lemma_bits_val_bound(before_mode.0, before_mode.1, 2);
            }
            let (i, reg) = match parse_reg(is_word, i) {
                Ok(ok) => ok,
                Err(e) => {
                    return Err(e);
                },
            };
            let (i, rm) = match parse_rm(mode, is_word, i) {
                Ok(ok) => ok,
                Err(e) => {
                    return Err(e);
                },
            };
            let (destination, source) = if d_bit {
                (Location::Reg(reg), Source::Loc(rm))
            } else {
                (rm, Source::Loc(Location::Reg(reg)))
            };
            Ok((i, Instruction { operation: opcode, destination, source }))
        },
        Operation::MovImmediateReg => {
            let (i, is_word) = match take_bool(i) {
                Ok(ok) => ok,
                Err(e) => {
                    return Err(e);
                },
            };
            let (i, reg) = match parse_reg(is_word, i) {
                Ok(ok) => ok,
                Err(e) => {
                    return Err(e);
                },
            };
            let (i, val) = match parse_immediate(i, is_word) {
                Ok(ok) => ok,
                Err(e) => {
                    return Err(e);
                },
            };
            Ok(
                (
                    i,
                    Instruction {
                        operation: opcode,
                        destination: Location::Reg(reg),
                        source: Source::Imm(val),
                    },
                ),
            )
        },
        _ => Err(ParseError::Unsupported),
    }
}

/// The lower-case name of a register.
pub open spec fn reg_str(r: Register) -> Seq<char> {
    match r {
        Register::Al => "al"@,
        Register::Dl => "dl"@,
        Register::Cl => "cl"@,
        Register::Bl => "bl"@,
        Register::Ah => "ah"@,
        Register::Dh => "dh"@,
        Register::Ch => "ch"@,
        Register::Bh => "bh"@,
        Register::Ax => "ax"@,
        Register::Dx => "dx"@,
        Register::Cx => "cx"@,
        Register::Bx => "bx"@,
        Register::Sp => "sp"@,
        Register::Bp => "bp"@,
        Register::Si => "si"@,
        Register::Di => "di"@,
    }
}

/// The lower-case name of a base combination.
pub open spec fn addr_str(a: Address) -> Seq<char> {
    match a {
        Address::BxSi => "bx + si"@,
        Address::BxDi => "bx + di"@,
        Address::BpSi => "bp + si"@,
        Address::BpDi => "bp + di"@,
        Address::Si => "si"@,
        Address::Di => "di"@,
        Address::Bp => "bp"@,
        Address::Bx => "bx"@,
    }
}

/// An immediate in decimal.
pub open spec fn imm_str(imm: Immediate) -> Seq<char> {
    match imm {
        Immediate::Byte(v) => dec_digits(v as nat),
        Immediate::Word(v) => dec_digits(v as nat),
    }
}

/// A location: a register name, or a memory operand in brackets.
pub open spec fn location_str(l: Location) -> Seq<char> {
    match l {
        Location::Reg(r) => reg_str(r),
        Location::Addr(ea) => match ea {
            EAddress::Bare(a) => "["@ + addr_str(a) + "]"@,
            EAddress::WithOffset(a, off) => "["@ + addr_str(a) + " + "@ + imm_str(off) + "]"@,
        },
    }
}

/// A source operand: a location or an immediate.
pub open spec fn source_str(s: Source) -> Seq<char> {
    match s {
        Source::Loc(l) => location_str(l),
        Source::Imm(imm) => imm_str(imm),
    }
}

/// An operation's mnemonic.
pub open spec fn operation_str(o: Operation) -> Seq<char> {
    match o {
        Operation::MovRegRM => "mov"@,
        Operation::MovImmediateRM => "mov"@,
        Operation::MovImmediateReg => "mov"@,
        Operation::Unimplemented => "unimplemented!"@,
    }
}

/// One parsed instruction as a line of assembly text (without the trailing
/// newline).
pub open spec fn instruction_str(inst: Instruction) -> Seq<char> {
    operation_str(inst.operation) + " "@ + location_str(inst.destination) + ", "@ + source_str(
        inst.source,
    )
}

/// Appends a register name.
fn append_reg(out: &mut String, r: &Register)
    ensures
        final(out)@ == old(out)@ + reg_str(*r),
{
    match r {
        Register::Al => out.append("al"),
        Register::Dl => out.append("dl"),
        Register::Cl => out.append("cl"),
        Register::Bl => out.append("bl"),
        Register::Ah => out.append("ah"),
        Register::Dh => out.append("dh"),
        Register::Ch => out.append("ch"),
        Register::Bh => out.append("bh"),
        Register::Ax => out.append("ax"),
        Register::Dx => out.append("dx"),
        Register::Cx => out.append("cx"),
        Register::Bx => out.append("bx"),
        Register::Sp => out.append("sp"),
        Register::Bp => out.append("bp"),
        Register::Si => out.append("si"),
        Register::Di => out.append("di"),
    }
}

/// Appends an immediate in decimal.
fn append_imm(out: &mut String, imm: &Immediate)
    ensures
        final(out)@ == old(out)@ + imm_str(*imm),
{
    match imm {
        Immediate::Byte(v) => crate::render::append_dec(out, *v as u16),
        Immediate::Word(v) => crate::render::append_dec(out, *v),
    }
}

/// Appends a location.
fn append_location(out: &mut String, l: &Location)
    ensures
        final(out)@ == old(out)@ + location_str(*l),
{
    match l {
        Location::Reg(r) => append_reg(out, r),
        Location::Addr(ea) => {
            out.append("[");
            let (a, off) = match ea {
                EAddress::Bare(a) => (a, None),
                EAddress::WithOffset(a, off) => (a, Some(off)),
            };
            match a {
                Address::BxSi => out.append("bx + si"),
                Address::BxDi => out.append("bx + di"),
                Address::BpSi => out.append("bp + si"),
                Address::BpDi => out.append("bp + di"),
                Address::Si => out.append("si"),
                Address::Di => out.append("di"),
                Address::Bp => out.append("bp"),
                Address::Bx => out.append("bx"),
            }
            match off {
                Some(imm) => {
                    out.append(" + ");
                    append_imm(out, imm);
                },
                None => {},
            }
            out.append("]");
            assert(out@ =~= old(out)@ + location_str(*l));
        },
    }
}

impl Instruction {
    /// Renders this instruction as one line of assembly text (without the
    /// trailing newline).
    pub fn text(&self) -> (r: String)
        ensures
            r@ == instruction_str(*self),
    {
        let mut out = String::new();
        match self.operation {
            Operation::MovRegRM => out.append("mov"),
            Operation::MovImmediateRM => out.append("mov"),
            Operation::MovImmediateReg => out.append("mov"),
            Operation::Unimplemented => out.append("unimplemented!"),
        }
        out.append(" ");
        append_location(&mut out, &self.destination);
        out.append(", ");
        match &self.source {
            Source::Loc(l) => append_location(&mut out, l),
            Source::Imm(imm) => append_imm(&mut out, imm),
        }
        assert(out@ =~= instruction_str(*self));
        out
    }
}

/// A successful bit read leaves the offset inside a byte and shortens the
/// remaining bits by exactly the bits read.
proof fn lemma_take_budget(s: Seq<u8>, off: int, n: int)
    requires
        0 <= off,
        0 <= n,
    ensures
        spec_take(s, off, n) is Ok ==> ({
            let (s1, o1, _) = spec_take(s, off, n)->Ok_0;
            &&& 0 <= o1 < 8
            &&& s1.len() <= s.len()
            &&& 8 * s1.len() - o1 == 8 * s.len() - off - n
        }),
{
    if off + n <= 8 * s.len() {
        assert(8 * ((off + n) / 8) + (off + n) % 8 == off + n);
        assert((off + n) / 8 <= s.len()) by (nonlinear_arith)
            requires
                off + n <= 8 * s.len(),
                0 <= off + n,
        ;
    }
}

/// A successful parse always consumes at least one whole byte and leaves
/// the offset inside a byte.
proof fn lemma_parse_consumes(s: Seq<u8>, off: int)
    requires
        0 <= off < 8,
        s.len() > 0,
    ensures
        spec_parse_instruction(s, off) is Ok ==> ({
            let (s1, o1, _) = spec_parse_instruction(s, off)->Ok_0;
            &&& 0 <= o1 < 8
            &&& s1.len() < s.len()
        }),
{
    lemma_take_budget(s, off, 4);
    if spec_take(s, off, 4) is Ok {
        let (s1, o1, nib) = spec_take(s, off, 4)->Ok_0;
        lemma_take_budget(s1, o1, 2);
        if nib == 8 && spec_take(s1, o1, 2) is Ok {
            let (s2, o2, _) = spec_take(s1, o1, 2)->Ok_0;
            lemma_take_budget(s2, o2, 1);
            if spec_take(s2, o2, 1) is Ok {
                let (s3, o3, _) = spec_take(s2, o2, 1)->Ok_0;
                lemma_take_budget(s3, o3, 1);
                if spec_take(s3, o3, 1) is Ok {
                    let (s4, o4, _) = spec_take(s3, o3, 1)->Ok_0;
                    lemma_take_budget(s4, o4, 2);
                    if spec_take(s4, o4, 2) is Ok {
                        let (s5, o5, _) = spec_take(s4, o4, 2)->Ok_0;
                        lemma_take_budget(s5, o5, 3);
                        if spec_take(s5, o5, 3) is Ok {
                            let (s6, o6, _) = spec_take(s5, o5, 3)->Ok_0;
                            lemma_rm_budget(s6, o6);
                        }
                    }
                }
            }
        } else if nib == 11 {
            lemma_take_budget(s1, o1, 1);
            if spec_take(s1, o1, 1) is Ok {
                let (s2, o2, _) = spec_take(s1, o1, 1)->Ok_0;
                lemma_take_budget(s2, o2, 3);
                if spec_take(s2, o2, 3) is Ok {
                    let (s3, o3, _) = spec_take(s2, o2, 3)->Ok_0;
                    lemma_imm_budget(s3, o3);
                }
            }
        }
    }
}

/// A parsed immediate consumes 8 or 16 bits.
proof fn lemma_imm_budget(s: Seq<u8>, off: int)
    requires
        0 <= off,
    ensures
        forall|w: bool|
            #[trigger] spec_parse_immediate(s, off, w) is Ok ==> ({
                let (s1, o1, _) = spec_parse_immediate(s, off, w)->Ok_0;
                &&& 0 <= o1 < 8
                &&& 8 * s1.len() - o1 <= 8 * s.len() - off - 8
            }),
{
    lemma_take_budget(s, off, 8);
    if spec_take(s, off, 8) is Ok {
        let (s1, o1, _) = spec_take(s, off, 8)->Ok_0;
        lemma_take_budget(s1, o1, 8);
    }
}

/// A parsed register-or-memory operand consumes at least three bits.
proof fn lemma_rm_budget(s: Seq<u8>, off: int)
    requires
        0 <= off,
    ensures
        forall|mode: u8, w: bool|
            #[trigger] spec_parse_rm(s, off, mode, w) is Ok ==> ({
                let (s1, o1, _) = spec_parse_rm(s, off, mode, w)->Ok_0;
                &&& 0 <= o1 < 8
                &&& 8 * s1.len() - o1 <= 8 * s.len() - off - 3
            }),
{
    lemma_take_budget(s, off, 3);
    if spec_take(s, off, 3) is Ok {
        let (s1, o1, _) = spec_take(s, off, 3)->Ok_0;
        lemma_imm_budget(s1, o1);
    }
}

/// The disassembly lines of a whole stream, parsed strictly left to right:
/// each instruction's text and a newline, or the first error met.
pub open spec fn spec_dis_lines(s: Seq<u8>, off: int) -> Result<Seq<char>, ParseError>
    decreases s.len(),
    via spec_dis_lines_decreases
{
    if s.len() == 0 || off < 0 || off >= 8 {
        Ok(Seq::<char>::empty())
    } else {
        match spec_parse_instruction(s, off) {
            Err(e) => Err(e),
            Ok((s1, o1, inst)) => match spec_dis_lines(s1, o1) {
                Err(e) => Err(e),
                Ok(rest) => Ok(instruction_str(inst) + "\n"@ + rest),
            },
        }
    }
}

#[via_fn]
proof fn spec_dis_lines_decreases(s: Seq<u8>, off: int) {
    if s.len() != 0 && 0 <= off < 8 {
        lemma_parse_consumes(s, off);
    }
}

/// Disassembles a whole byte stream with the bit-level parser: a `bits 16`
/// directive, a blank line, then one rendered instruction per line — or
/// the first error the parser meets.
#[verifier::rlimit(100)]
pub fn disassemble(program: &[u8]) -> (r: Result<String, ParseError>)
    ensures
        r is Ok <==> spec_dis_lines(program@, 0) is Ok,
        r is Ok ==> r->Ok_0@ == "bits 16\n\n"@ + spec_dis_lines(program@, 0)->Ok_0,
        r is Err ==> Err::<Seq<char>, ParseError>(r->Err_0) == spec_dis_lines(program@, 0),
{
    let mut listing = String::new();
    listing.append("bits 16\n\n");
    let mut stream: BitInput = (program, 0);
    while !stream.0.is_empty()
        invariant
            stream.1 < 8,
            ({
                match spec_dis_lines(program@, 0) {
                    Ok(total) => spec_dis_lines(stream.0@, stream.1 as int) is Ok && listing@
                        + spec_dis_lines(stream.0@, stream.1 as int)->Ok_0 == "bits 16\n\n"@
                        + total,
                    Err(e) => spec_dis_lines(stream.0@, stream.1 as int) == Err::<
                        Seq<char>,
                        ParseError,
                    >(e),
                }
            }),
        decreases stream.0@.len(),
    {
        let ghost cur = (stream.0@, stream.1 as int);
        proof {
            lemma_parse_consumes(cur.0, cur.1);
        }
        let ghost text0 = listing@;
        match parse_instruction(stream) {
            Err(e) => {
                return Err(e);
            },
            Ok((tail, instruction)) => {
                let line = instruction.text();
                listing.append(line.as_str());
                listing.append("\n");
                stream = tail;
                proof {
                    if spec_dis_lines(stream.0@, stream.1 as int) is Ok {
                        let rest = spec_dis_lines(stream.0@, stream.1 as int)->Ok_0;
                        assert(listing@ + rest =~= text0 + (line@ + "\n"@ + rest));
                    }
                }
            },
        }
    }
    Ok(listing)
}

} // verus!
