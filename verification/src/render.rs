//! The text renderer: formats a decoded [`Instruction`] as one line of
//! assembly syntax.
//!
//! [`spec_render`] states the exact character sequence each instruction
//! renders to; the executable functions build that text by appending to a
//! `String`.
use vstd::prelude::*;
use vstd::string::StringExecFns;

use crate::{EffectiveAdress, Instruction, Place, RegisterByte, RegisterWord};

verus! {

/// The single decimal digit `d` as text.
pub open spec fn digit_str(d: nat) -> Seq<char> {
    if d == 0 {
        "0"@
    } else if d == 1 {
        "1"@
    } else if d == 2 {
        "2"@
    } else if d == 3 {
        "3"@
    } else if d == 4 {
        "4"@
    } else if d == 5 {
        "5"@
    } else if d == 6 {
        "6"@
    } else if d == 7 {
        "7"@
    } else if d == 8 {
        "8"@
    } else {
        "9"@
    }
}

/// The decimal rendering of `n`, without sign or padding.
pub open spec fn dec_digits(n: nat) -> Seq<char>
    decreases n,
{
    if n < 10 {
        digit_str(n)
    } else {
        dec_digits(n / 10) + digit_str(n % 10)
    }
}

/// The single lower-case hexadecimal digit `d` as text.
pub open spec fn hex_digit_str(d: nat) -> Seq<char> {
    if d < 10 {
        digit_str(d)
    } else if d == 10 {
        "a"@
    } else if d == 11 {
        "b"@
    } else if d == 12 {
        "c"@
    } else if d == 13 {
        "d"@
    } else if d == 14 {
        "e"@
    } else {
        "f"@
    }
}

/// A byte in lower-case hexadecimal, two characters wide, padded on the
/// left with a space.
pub open spec fn hex2(b: u8) -> Seq<char> {
    if b < 16 {
        " "@ + hex_digit_str(b as nat)
    } else {
        hex_digit_str((b / 16) as nat) + hex_digit_str((b % 16) as nat)
    }
}

/// A signed jump offset with an explicit sign, as the `$+2` notation needs
/// it.
pub open spec fn signed_str(o: i8) -> Seq<char> {
    if o >= 0 {
        "+"@ + dec_digits(o as nat)
    } else {
        "-"@ + dec_digits((-(o as int)) as nat)
    }
}

/// The name of a byte register.
pub open spec fn byte_reg_str(r: RegisterByte) -> Seq<char> {
    match r {
        RegisterByte::AL => "AL"@,
        RegisterByte::CL => "CL"@,
        RegisterByte::DL => "DL"@,
        RegisterByte::BL => "BL"@,
        RegisterByte::AH => "AH"@,
        RegisterByte::CH => "CH"@,
        RegisterByte::DH => "DH"@,
        RegisterByte::BH => "BH"@,
    }
}

/// The name of a word register.
pub open spec fn word_reg_str(r: RegisterWord) -> Seq<char> {
    match r {
        RegisterWord::AX => "AX"@,
        RegisterWord::CX => "CX"@,
        RegisterWord::DX => "DX"@,
        RegisterWord::BX => "BX"@,
        RegisterWord::SP => "SP"@,
        RegisterWord::BP => "BP"@,
        RegisterWord::SI => "SI"@,
        RegisterWord::DI => "DI"@,
    }
}

/// The base-register combination a three-bit base-index selects.
pub open spec fn base_str(index: u8) -> Seq<char> {
    if index == 0 {
        "BX + SI"@
    } else if index == 1 {
        "BX + DI"@
    } else if index == 2 {
        "BP + SI"@
    } else if index == 3 {
        "BP + DI"@
    } else if index == 4 {
        "SI"@
    } else if index == 5 {
        "DI"@
    } else if index == 6 {
        "BP"@
    } else {
        "BX"@
    }
}

/// A memory operand in brackets: the direct-address special case shows only
/// the absolute address, every other form shows the base combination plus
/// the displacement.
pub open spec fn ea_str(ea: EffectiveAdress) -> Seq<char> {
    if ea.is_direct() {
        "["@ + dec_digits(ea.displacement as nat) + "]"@
    } else {
        "["@ + base_str(ea.index) + " + "@ + dec_digits(ea.displacement as nat) + "]"@
    }
}

/// An operand: a register name or a memory operand.
pub open spec fn place_str(p: Place) -> Seq<char> {
    match p {
        Place::Byte(r) => byte_reg_str(r),
        Place::Word(r) => word_reg_str(r),
        Place::Adress(ea) => ea_str(ea),
    }
}

/// The mnemonic of an arithmetic-group operation selector.
pub open spec fn math_str(op: u8) -> Seq<char> {
    if op == 0 {
        "add"@
    } else if op == 1 {
        "or"@
    } else if op == 2 {
        "adc"@
    } else if op == 3 {
        "sbb"@
    } else if op == 4 {
        "and"@
    } else if op == 5 {
        "sub"@
    } else if op == 6 {
        "xor"@
    } else {
        "cmp"@
    }
}

/// The condition-code name a conditional-jump opcode tests.
pub open spec fn jump_kind_str(kind: u8) -> Seq<char> {
    if kind == 0 {
        "o"@
    } else if kind == 1 {
        "b"@
    } else if kind == 2 {
        "z"@
    } else if kind == 3 {
        "be"@
    } else if kind == 4 {
        "s"@
    } else if kind == 5 {
        "p"@
    } else if kind == 6 {
        "l"@
    } else {
        "le"@
    }
}

/// The mnemonic of a loop-family opcode.
pub open spec fn loop_kind_str(kind: u8) -> Seq<char> {
    if kind == 0 {
        "loopnz"@
    } else if kind == 1 {
        "loopz"@
    } else if kind == 2 {
        "loop"@
    } else {
        "jcxz"@
    }
}

/// The size keyword an ambiguous memory operand carries.
pub open spec fn size_str(word_mode: bool) -> Seq<char> {
    if word_mode {
        "word"@
    } else {
        "byte"@
    }
}

/// The exact assembly-syntax text one instruction renders to (without the
/// trailing newline).
pub open spec fn spec_render(inst: Instruction) -> Seq<char> {
    match inst {
        Instruction::Arithmetic { op, target, source } => math_str(op) + " "@ + place_str(target)
            + ", "@ + place_str(source),
        Instruction::ArithmeticImmediate { op, target, immediate } => math_str(op) + " "@
            + place_str(target) + ", "@ + dec_digits(immediate as nat),
        Instruction::ArithmeticImmediateToMemory { word_mode, op, target, immediate } => math_str(
            op,
        ) + " "@ + size_str(word_mode) + " "@ + place_str(target) + ", "@ + dec_digits(
            immediate as nat,
        ),
        Instruction::Jump { marker, offset } => "j"@ + (if marker % 2 == 1 {
            "n"@
        } else {
            Seq::<char>::empty()
        }) + jump_kind_str((marker / 2) % 8) + " $+2"@ + signed_str(offset),
        Instruction::Loop { marker, offset } => loop_kind_str(marker % 4) + " $+2"@ + signed_str(
            offset,
        ),
        Instruction::Mov { target, source } => "mov "@ + place_str(target) + ", "@ + place_str(
            source,
        ),
        Instruction::MovImmediate { target, immediate } => "mov "@ + place_str(target) + ", "@
            + dec_digits(immediate as nat),
        Instruction::MovImmediateToMemory { word_mode, target, immediate } => "mov "@ + place_str(
            target,
        ) + ", "@ + size_str(word_mode) + " "@ + dec_digits(immediate as nat),
        Instruction::Unrecognized(byte) => "\u{1B}[1m\u{1B}[31m"@ + hex2(byte)
            + "\u{1B}[0m unrecognized"@,
    }
}

/// Appends one decimal digit.
fn append_digit(out: &mut String, d: u8)
    requires
        d < 10,
    ensures
        final(out)@ == old(out)@ + digit_str(d as nat),
{
    if d == 0 {
        out.append("0");
    } else if d == 1 {
        out.append("1");
    } else if d == 2 {
        out.append("2");
    } else if d == 3 {
        out.append("3");
    } else if d == 4 {
        out.append("4");
    } else if d == 5 {
        out.append("5");
    } else if d == 6 {
        out.append("6");
    } else if d == 7 {
        out.append("7");
    } else if d == 8 {
        out.append("8");
    } else {
        out.append("9");
    }
}

/// Appends the decimal rendering of `n`.
pub(crate) fn append_dec(out: &mut String, n: u16)
    ensures
        final(out)@ == old(out)@ + dec_digits(n as nat),
    decreases n,
{
    if n >= 10 {
        append_dec(out, n / 10);
    }
    append_digit(out, (n % 10) as u8);
    proof {
        if n >= 10 {
            assert(out@ =~= old(out)@ + dec_digits(n as nat));
        }
    }
}

/// Appends one lower-case hexadecimal digit.
fn append_hex_digit(out: &mut String, d: u8)
    requires
        d < 16,
    ensures
        final(out)@ == old(out)@ + hex_digit_str(d as nat),
{
    if d < 10 {
        append_digit(out, d);
    } else if d == 10 {
        out.append("a");
    } else if d == 11 {
        out.append("b");
    } else if d == 12 {
        out.append("c");
    } else if d == 13 {
        out.append("d");
    } else if d == 14 {
        out.append("e");
    } else {
        out.append("f");
    }
}

/// Appends a byte as two-character space-padded hexadecimal.
fn append_hex2(out: &mut String, b: u8)
    ensures
        final(out)@ == old(out)@ + hex2(b),
{
    if b < 16 {
        out.append(" ");
        append_hex_digit(out, b);
    } else {
        append_hex_digit(out, b / 16);
        append_hex_digit(out, b % 16);
    }
    assert(out@ =~= old(out)@ + hex2(b));
}

/// Appends a signed jump offset with an explicit sign.
fn append_signed(out: &mut String, o: i8)
    ensures
        final(out)@ == old(out)@ + signed_str(o),
{
    if o >= 0 {
        out.append("+");
        append_dec(out, o as u16);
    } else {
        out.append("-");
        let magnitude = (-(o as i16)) as u16;
        append_dec(out, magnitude);
    }
    assert(out@ =~= old(out)@ + signed_str(o));
}

/// Appends an operand.
fn append_place(out: &mut String, p: &Place)
    requires
        p.wf(),
    ensures
        final(out)@ == old(out)@ + place_str(*p),
{
    match p {
        Place::Byte(r) => match r {
            RegisterByte::AL => out.append("AL"),
            RegisterByte::CL => out.append("CL"),
            RegisterByte::DL => out.append("DL"),
            RegisterByte::BL => out.append("BL"),
            RegisterByte::AH => out.append("AH"),
            RegisterByte::CH => out.append("CH"),
            RegisterByte::DH => out.append("DH"),
            RegisterByte::BH => out.append("BH"),
        },
        Place::Word(r) => match r {
            RegisterWord::AX => out.append("AX"),
            RegisterWord::CX => out.append("CX"),
            RegisterWord::DX => out.append("DX"),
            RegisterWord::BX => out.append("BX"),
            RegisterWord::SP => out.append("SP"),
            RegisterWord::BP => out.append("BP"),
            RegisterWord::SI => out.append("SI"),
            RegisterWord::DI => out.append("DI"),
        },
        Place::Adress(ea) => {
            out.append("[");
            if matches!(ea.mode, crate::Mode::EffectiveAdress) && ea.index == 6 {
                append_dec(out, ea.displacement);
            } else {
                if ea.index == 0 {
                    out.append("BX + SI");
                } else if ea.index == 1 {
                    out.append("BX + DI");
                } else if ea.index == 2 {
                    out.append("BP + SI");
                } else if ea.index == 3 {
                    out.append("BP + DI");
                } else if ea.index == 4 {
                    out.append("SI");
                } else if ea.index == 5 {
                    out.append("DI");
                } else if ea.index == 6 {
                    out.append("BP");
                } else {
                    out.append("BX");
                }
                out.append(" + ");
                append_dec(out, ea.displacement);
            }
            out.append("]");
            assert(out@ =~= old(out)@ + place_str(*p));
        },
    }
}

/// Appends an arithmetic-group mnemonic.
fn append_math(out: &mut String, op: u8)
    requires
        op < 8,
    ensures
        final(out)@ == old(out)@ + math_str(op),
{
    if op == 0 {
        out.append("add");
    } else if op == 1 {
        out.append("or");
    } else if op == 2 {
        out.append("adc");
    } else if op == 3 {
        out.append("sbb");
    } else if op == 4 {
        out.append("and");
    } else if op == 5 {
        out.append("sub");
    } else if op == 6 {
        out.append("xor");
    } else {
        out.append("cmp");
    }
}

/// Appends one instruction's assembly text (no trailing newline).
pub fn push_instruction(out: &mut String, inst: &Instruction)
    requires
        inst.wf(),
    ensures
        final(out)@ == old(out)@ + spec_render(*inst),
{
    match inst {
        Instruction::Arithmetic { op, target, source } => {
            append_math(out, *op);
            out.append(" ");
            append_place(out, target);
            out.append(", ");
            append_place(out, source);
            assert(out@ =~= old(out)@ + spec_render(*inst));
        },
        Instruction::ArithmeticImmediate { op, target, immediate } => {
            append_math(out, *op);
            out.append(" ");
            append_place(out, target);
            out.append(", ");
            append_dec(out, *immediate);
            assert(out@ =~= old(out)@ + spec_render(*inst));
        },
        Instruction::ArithmeticImmediateToMemory { word_mode, op, target, immediate } => {
            append_math(out, *op);
            out.append(" ");
            if *word_mode {
                out.append("word");
            } else {
                out.append("byte");
            }
            out.append(" ");
            append_place(out, target);
            out.append(", ");
            append_dec(out, *immediate);
            assert(out@ =~= old(out)@ + spec_render(*inst));
        },
        Instruction::Jump { marker, offset } => {
            out.append("j");
            if *marker % 2 == 1 {
                out.append("n");
            }
            let kind = (*marker / 2) % 8;
            if kind == 0 {
                out.append("o");
            } else if kind == 1 {
                out.append("b");
            } else if kind == 2 {
                out.append("z");
            } else if kind == 3 {
                out.append("be");
            } else if kind == 4 {
                out.append("s");
            } else if kind == 5 {
                out.append("p");
            } else if kind == 6 {
                out.append("l");
            } else {
                out.append("le");
            }
            out.append(" $+2");
            append_signed(out, *offset);
            assert(out@ =~= old(out)@ + spec_render(*inst));
        },
        Instruction::Loop { marker, offset } => {
            let kind = *marker % 4;
            if kind == 0 {
                out.append("loopnz");
            } else if kind == 1 {
                out.append("loopz");
            } else if kind == 2 {
                out.append("loop");
            } else {
                out.append("jcxz");
            }
            out.append(" $+2");
            append_signed(out, *offset);
            assert(out@ =~= old(out)@ + spec_render(*inst));
        },
        Instruction::Mov { target, source } => {
            out.append("mov ");
            append_place(out, target);
            out.append(", ");
            append_place(out, source);
            assert(out@ =~= old(out)@ + spec_render(*inst));
        },
        Instruction::MovImmediate { target, immediate } => {
            out.append("mov ");
            append_place(out, target);
            out.append(", ");
            append_dec(out, *immediate);
            assert(out@ =~= old(out)@ + spec_render(*inst));
        },
        Instruction::MovImmediateToMemory { word_mode, target, immediate } => {
            out.append("mov ");
            append_place(out, target);
            out.append(", ");
            if *word_mode {
                out.append("word");
            } else {
                out.append("byte");
            }
            out.append(" ");
            append_dec(out, *immediate);
            assert(out@ =~= old(out)@ + spec_render(*inst));
        },
        Instruction::Unrecognized(byte) => {
            out.append("\u{1B}[1m\u{1B}[31m");
            append_hex2(out, *byte);
            out.append("\u{1B}[0m unrecognized");
            assert(out@ =~= old(out)@ + spec_render(*inst));
        },
    }
}

impl Instruction {
    /// Renders this instruction as one line of assembly syntax (without the
    /// trailing newline).
    pub fn render(&self) -> (r: String)
        requires
            self.wf(),
        ensures
            r@ == spec_render(*self),
    {
        let mut out = String::new();
        push_instruction(&mut out, self);
        out
    }
}

} // verus!
